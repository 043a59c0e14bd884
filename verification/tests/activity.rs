use ndrpc::model::preset::{Assets, Button, Preset};
use ndrpc::presence::activity::{
    listed_buttons_of, plain_activity_of, system_info_activity_of, tidy_activity_of,
    trimmed_assets_of, trimmed_text_of, usable_buttons_of, Activity,
};

fn s(x: &str) -> Option<String> {
    Some(x.to_string())
}

fn button(label: &str, url: &str) -> Button {
    Button { label: label.to_string(), url: url.to_string() }
}

fn pairs(bs: &[Button]) -> Vec<(String, String)> {
    bs.iter().map(|b| (b.label.clone(), b.url.clone())).collect()
}

fn readme_preset() -> Preset {
    Preset {
        details: s("Some details"),
        state: s("Some state"),
        assets: Some(Assets {
            large_image: s("ndrpc_logo"),
            large_text: s("Text of large image"),
            small_image: s("ndrpc_logo"),
            small_text: s("Text of small image"),
        }),
        buttons: Some(vec![
            button("Github", "https://github.com/INikonI/ndrpc/"),
            button("Discord", "https://discord.com"),
        ]),
    }
}

fn messy_preset() -> Preset {
    Preset {
        details: s("  Rich Presence Client \n"),
        state: s("   "),
        assets: Some(Assets {
            large_image: s(" ndrpc_logo "),
            large_text: s(""),
            small_image: None,
            small_text: s("\tsmall\t"),
        }),
        buttons: Some(vec![
            button("  ", "https://a.example"),
            button(" Github ", " https://github.com/INikonI/ndrpc/ "),
            button("Third", "https://c.example"),
        ]),
    }
}

fn assets_fields(a: &Option<Assets>) -> Option<[Option<String>; 4]> {
    a.as_ref().map(|a| {
        [a.large_image.clone(), a.large_text.clone(), a.small_image.clone(), a.small_text.clone()]
    })
}

#[test]
fn plain_activity_takes_preset_as_written() {
    let a: Activity = plain_activity_of(&readme_preset(), Some(1_000));
    assert_eq!(a.details, s("Some details"));
    assert_eq!(a.state, s("Some state"));
    assert_eq!(a.start_timestamp, Some(1_000));
    assert_eq!(
        assets_fields(&a.assets),
        Some([s("ndrpc_logo"), s("Text of large image"), s("ndrpc_logo"), s("Text of small image")])
    );
    assert_eq!(
        pairs(&a.buttons),
        vec![
            ("Github".to_string(), "https://github.com/INikonI/ndrpc/".to_string()),
            ("Discord".to_string(), "https://discord.com".to_string())
        ]
    );
}

#[test]
fn plain_activity_keeps_white_space_and_empty_texts() {
    let a = plain_activity_of(&messy_preset(), None);
    assert_eq!(a.details, s("  Rich Presence Client \n"));
    assert_eq!(a.state, s("   "));
    assert_eq!(a.start_timestamp, None);
    assert_eq!(
        assets_fields(&a.assets),
        Some([s(" ndrpc_logo "), s(""), None, s("\tsmall\t")])
    );
    assert_eq!(
        pairs(&a.buttons),
        vec![
            ("  ".to_string(), "https://a.example".to_string()),
            (" Github ".to_string(), " https://github.com/INikonI/ndrpc/ ".to_string())
        ]
    );
}

#[test]
fn tidy_activity_trims_and_drops_empty() {
    let a = tidy_activity_of(&messy_preset(), Some(42));
    assert_eq!(a.details, s("Rich Presence Client"));
    assert_eq!(a.state, None);
    assert_eq!(a.start_timestamp, Some(42));
    assert_eq!(assets_fields(&a.assets), Some([s("ndrpc_logo"), None, None, s("small")]));
    // Only the first two buttons are considered; the empty first one is
    // dropped and the third never comes in.
    assert_eq!(
        pairs(&a.buttons),
        vec![("Github".to_string(), "https://github.com/INikonI/ndrpc/".to_string())]
    );
}

#[test]
fn tidy_and_plain_agree_on_clean_preset() {
    let p = readme_preset();
    let a = plain_activity_of(&p, Some(5));
    let b = tidy_activity_of(&p, Some(5));
    assert_eq!(a.details, b.details);
    assert_eq!(a.state, b.state);
    assert_eq!(a.start_timestamp, b.start_timestamp);
    assert_eq!(assets_fields(&a.assets), assets_fields(&b.assets));
    assert_eq!(pairs(&a.buttons), pairs(&b.buttons));
}

#[test]
fn empty_preset_gives_empty_activity() {
    let p = Preset { state: None, details: None, assets: None, buttons: None };
    for a in [plain_activity_of(&p, None), tidy_activity_of(&p, None)] {
        assert_eq!(a.details, None);
        assert_eq!(a.state, None);
        assert!(a.assets.is_none());
        assert!(a.buttons.is_empty());
        assert_eq!(a.start_timestamp, None);
    }
}

#[test]
fn assets_set_but_all_empty_stay_set() {
    let a = Assets { large_image: s(" "), large_text: None, small_image: s(""), small_text: None };
    let t = trimmed_assets_of(&a);
    assert_eq!(assets_fields(&Some(t)), Some([None, None, None, None]));
}

#[test]
fn trimmed_text_cases() {
    assert_eq!(trimmed_text_of(&None), None);
    assert_eq!(trimmed_text_of(&s("")), None);
    assert_eq!(trimmed_text_of(&s(" \u{3000} ")), None);
    assert_eq!(trimmed_text_of(&s(" x ")), s("x"));
}

#[test]
fn usable_buttons_cases() {
    assert!(usable_buttons_of(&None).is_empty());
    assert!(usable_buttons_of(&Some(vec![])).is_empty());
    let none_usable = Some(vec![button("", "u"), button("l", " "), button("ok", "ok")]);
    assert!(usable_buttons_of(&none_usable).is_empty());
    let both = Some(vec![button(" a ", "b"), button("c", " d ")]);
    assert_eq!(
        pairs(&usable_buttons_of(&both)),
        vec![("a".to_string(), "b".to_string()), ("c".to_string(), "d".to_string())]
    );
}

#[test]
fn listed_buttons_are_first_two() {
    assert!(listed_buttons_of(&None).is_empty());
    let three = Some(vec![button("1", "a"), button("2", "b"), button("3", "c")]);
    assert_eq!(
        pairs(&listed_buttons_of(&three)),
        vec![("1".to_string(), "a".to_string()), ("2".to_string(), "b".to_string())]
    );
    let one = Some(vec![button("", "")]);
    assert_eq!(pairs(&listed_buttons_of(&one)), vec![(String::new(), String::new())]);
}

#[test]
fn system_info_activity_fields() {
    let assets = Some(Assets {
        large_image: s(" logo "),
        large_text: s(" "),
        small_image: None,
        small_text: s("t"),
    });
    let buttons = vec![button("Github", "https://github.com")];
    let a = system_info_activity_of(
        "CPU: 5% | RAM: 3/16 GB".to_string(),
        "2.40 GHz | 4/8 Cores | Some CPU".to_string(),
        1_700_000_000_000,
        &assets,
        &buttons,
    );
    assert_eq!(a.details, s("CPU: 5% | RAM: 3/16 GB"));
    assert_eq!(a.state, s("2.40 GHz | 4/8 Cores | Some CPU"));
    assert_eq!(a.start_timestamp, Some(1_700_000_000_000));
    assert_eq!(assets_fields(&a.assets), Some([s("logo"), None, None, s("t")]));
    assert_eq!(pairs(&a.buttons), vec![("Github".to_string(), "https://github.com".to_string())]);
}
