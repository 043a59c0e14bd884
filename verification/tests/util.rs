use ndrpc::model::preset::Preset;
use ndrpc::util::{parse_failure_message, preset_path, read_failure_message, sort_loaded};

fn preset(details: &str) -> Preset {
    Preset { state: None, details: Some(details.to_string()), assets: None, buttons: None }
}

#[test]
fn preset_path_is_in_presets_dir() {
    assert_eq!(preset_path("some_preset"), "./presets/some_preset.yaml");
    assert_eq!(preset_path(""), "./presets/.yaml");
}

#[test]
fn read_failure_names_the_path() {
    assert_eq!(
        read_failure_message("config.yaml"),
        "Failed to read file or file not found \"config.yaml\""
    );
    assert_eq!(
        read_failure_message("./presets/x.yaml"),
        "Failed to read file or file not found \"./presets/x.yaml\""
    );
}

#[test]
fn parse_failure_names_the_file() {
    assert_eq!(parse_failure_message("config.yaml"), "Failed to parse file \"config.yaml\"");
    assert_eq!(
        parse_failure_message(&preset_path("other_preset")),
        "Failed to parse file \"other_preset.yaml\""
    );
}

#[test]
fn sort_loaded_keeps_order() {
    let results = vec![
        Ok(preset("a")),
        Err("e1".to_string()),
        Ok(preset("b")),
        Err("e2".to_string()),
        Ok(preset("c")),
    ];
    let (presets, errors) = sort_loaded(results);
    let details: Vec<String> = presets.into_iter().map(|p| p.details.unwrap()).collect();
    assert_eq!(details, vec!["a", "b", "c"]);
    assert_eq!(errors, vec!["e1", "e2"]);
}

#[test]
fn sort_loaded_of_nothing() {
    let (presets, errors) = sort_loaded(Vec::new());
    assert!(presets.is_empty());
    assert!(errors.is_empty());
    let (presets, errors) = sort_loaded(vec![Err("only".to_string())]);
    assert!(presets.is_empty());
    assert_eq!(errors, vec!["only"]);
}
