use ndrpc::model::config::{Config, PresenceKind};
use ndrpc::printing::{new_version_notice, PrintRow, MESSAGE_SECONDS};
use ndrpc::startup::{
    is_duplicate_instance, is_reload_request, plan_startup, start_of_day_millis, start_timestamp,
    ConfigError, KeyPress, Startup,
};

fn config(kind: PresenceKind, static_name: Option<&str>, dynamic: Option<Vec<&str>>) -> Config {
    Config {
        app_id: 983347731823210567,
        kind,
        static_preset_name: static_name.map(|s| s.to_string()),
        dynamic_preset_names: dynamic.map(|v| v.into_iter().map(|s| s.to_string()).collect()),
        cpu_freq_button: None,
        with_elapsed_time: Some(true),
    }
}

#[test]
fn static_needs_its_preset_name() {
    match plan_startup(&config(PresenceKind::CustomStatic, Some("some_preset"), None)) {
        Ok(Startup::Static { preset_name }) => assert_eq!(preset_name, "some_preset"),
        _ => panic!("expected a static presence"),
    }
    match plan_startup(&config(PresenceKind::CustomStatic, None, Some(vec!["a"]))) {
        Err(e) => assert_eq!(e, ConfigError::StaticPresetNameMissing),
        Ok(_) => panic!("expected an error"),
    }
}

#[test]
fn system_info_needs_the_static_preset_name() {
    match plan_startup(&config(PresenceKind::SystemInfo, Some("some_preset"), None)) {
        Ok(Startup::SystemInfo { preset_name }) => assert_eq!(preset_name, "some_preset"),
        _ => panic!("expected a system information presence"),
    }
    match plan_startup(&config(PresenceKind::SystemInfo, None, None)) {
        Err(e) => assert_eq!(e, ConfigError::StaticPresetNameMissing),
        Ok(_) => panic!("expected an error"),
    }
}

#[test]
fn dynamic_needs_its_preset_names() {
    match plan_startup(&config(
        PresenceKind::CustomDynamic,
        None,
        Some(vec!["other_preset", "some_preset"]),
    )) {
        Ok(Startup::Dynamic { preset_names }) => {
            assert_eq!(preset_names, vec!["other_preset", "some_preset"])
        }
        _ => panic!("expected a dynamic presence"),
    }
    match plan_startup(&config(PresenceKind::CustomDynamic, Some("some_preset"), None)) {
        Err(e) => assert_eq!(e, ConfigError::DynamicPresetNamesMissing),
        Ok(_) => panic!("expected an error"),
    }
}

#[test]
fn config_error_messages() {
    assert_eq!(ConfigError::StaticPresetNameMissing.message(), "Static preset name not found");
    assert_eq!(ConfigError::DynamicPresetNamesMissing.message(), "Dynamic preset names not found");
}

#[test]
fn elapsed_time_start() {
    assert_eq!(start_timestamp(Some(true), 1_700_000_000), Some(1_700_000_000_000));
    assert_eq!(start_timestamp(Some(false), 1_700_000_000), None);
    assert_eq!(start_timestamp(None, 1_700_000_000), None);
    assert_eq!(start_timestamp(Some(true), 0), Some(0));
    assert_eq!(start_timestamp(None, u64::MAX), None);
    assert_eq!(start_timestamp(Some(false), u64::MAX), None);
}

#[test]
fn start_of_day() {
    assert_eq!(start_of_day_millis(1_700_000_000_123, 3_600), 1_699_996_400_123);
    assert_eq!(start_of_day_millis(5_000, 0), 5_000);
    assert_eq!(start_of_day_millis(1_000, 86_399), 1_000 - 86_399_000);
}

#[test]
fn duplicate_instance() {
    assert!(!is_duplicate_instance(0));
    assert!(!is_duplicate_instance(1));
    assert!(is_duplicate_instance(2));
}

fn key(c: Option<char>, shift: bool, control: bool, alt: bool) -> Option<KeyPress> {
    Some(KeyPress { character: c, shift, control, alt })
}

#[test]
fn reload_key_is_ctrl_r_only() {
    assert!(is_reload_request(&key(Some('r'), false, true, false)));
    assert!(!is_reload_request(&key(Some('r'), false, false, false)));
    assert!(!is_reload_request(&key(Some('R'), true, true, false)));
    assert!(!is_reload_request(&key(Some('r'), false, true, true)));
    assert!(!is_reload_request(&key(Some('x'), false, true, false)));
    assert!(!is_reload_request(&key(None, false, true, false)));
    assert!(!is_reload_request(&None));
}

#[test]
fn print_rows() {
    assert_eq!(MESSAGE_SECONDS, 3);
    assert_eq!(PrintRow::Version.row(), 2);
    assert_eq!(PrintRow::Copyright.row(), 4);
    assert_eq!(PrintRow::NewVersionNotify.row(), 9);
    assert_eq!(PrintRow::ClientStatus.row(), 11);
    assert_eq!(PrintRow::ActivityStatus.row(), 12);
    assert_eq!(PrintRow::Info.row(), 14);
    assert_eq!(PrintRow::Error.row(), 15);
    assert_eq!(PrintRow::Binds.row(), 17);
}

#[test]
fn version_notice() {
    assert_eq!(new_version_notice("v0.3.0", "0.3.0"), None);
    assert_eq!(
        new_version_notice("v0.4.0", "0.3.0"),
        Some("New version available! https://github.com/INikonI/ndrpc/releases/tag/v0.4.0".to_string())
    );
    assert_eq!(
        new_version_notice("x", ""),
        None
    );
}
