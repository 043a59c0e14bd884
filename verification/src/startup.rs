//! What the client does at start: which presence it shows and with which
//! presets, when the elapsed time starts, and which key reloads presets.
use vstd::prelude::*;
use crate::model::config::{Config, PresenceKind};

verus! {

/// The presence to run, with the presets it needs.
pub enum Startup {
    /// Show the preset `preset_name`.
    Static { preset_name: String },
    /// Show the presets `preset_names` in turn.
    Dynamic { preset_names: Vec<String> },
    /// Show system figures with the assets and buttons of `preset_name`.
    SystemInfo { preset_name: String },
}

/// A configuration that lacks what its presence needs.
#[derive(PartialEq, Eq, Structural, Clone, Copy, Debug)]
pub enum ConfigError {
    /// `CustomStatic` or `SystemInfo` without `static_preset_name`.
    StaticPresetNameMissing,
    /// `CustomDynamic` without `dynamic_preset_names`.
    DynamicPresetNamesMissing,
}

/// What is said of a configuration error.
pub open spec fn config_error_chars(e: ConfigError) -> Seq<char> {
    match e {
        ConfigError::StaticPresetNameMissing => "Static preset name not found"@,
        ConfigError::DynamicPresetNamesMissing => "Dynamic preset names not found"@,
    }
}

impl ConfigError {
    /// The message shown for this error.
    pub fn message(&self) -> (res: String)
        ensures
            res@ == config_error_chars(*self),
    {
        match self {
            ConfigError::StaticPresetNameMissing => "Static preset name not found".to_owned(),
            ConfigError::DynamicPresetNamesMissing => "Dynamic preset names not found".to_owned(),
        }
    }
}

fn copy_names(names: &Vec<String>) -> (res: Vec<String>)
    ensures
        res@.len() == names@.len(),
        forall|i: int| 0 <= i < names@.len() ==> #[trigger] res@[i]@ == names@[i]@,
{
    let mut out: Vec<String> = Vec::new();
    let mut i: usize = 0;
    while i < names.len()
        invariant
            i <= names.len(),
            out@.len() == i,
            forall|k: int| 0 <= k < i ==> #[trigger] out@[k]@ == names@[k]@,
        decreases names.len() - i,
    {
        out.push(names[i].clone());
        i = i + 1;
    }
    out
}

/// The presence that `config` asks for, or what it lacks: `CustomStatic` and
/// `SystemInfo` need `static_preset_name`, `CustomDynamic` needs
/// `dynamic_preset_names`.
pub fn plan_startup(config: &Config) -> (res: Result<Startup, ConfigError>)
    ensures
        config.kind == PresenceKind::CustomStatic ==> match config.static_preset_name {
            Some(name) => res matches Ok(Startup::Static { preset_name }) && preset_name@
                == name@,
            None => res == Err::<Startup, ConfigError>(ConfigError::StaticPresetNameMissing),
        },
        config.kind == PresenceKind::SystemInfo ==> match config.static_preset_name {
            Some(name) => res matches Ok(Startup::SystemInfo { preset_name }) && preset_name@
                == name@,
            None => res == Err::<Startup, ConfigError>(ConfigError::StaticPresetNameMissing),
        },
        config.kind == PresenceKind::CustomDynamic ==> match config.dynamic_preset_names {
            Some(names) => res matches Ok(Startup::Dynamic { preset_names }) && preset_names@.len()
                == names@.len() && forall|i: int|
                0 <= i < names@.len() ==> #[trigger] preset_names@[i]@ == names@[i]@,
            None => res == Err::<Startup, ConfigError>(ConfigError::DynamicPresetNamesMissing),
        },
{
    match config.kind {
        PresenceKind::CustomStatic => match &config.static_preset_name {
            Some(name) => Ok(Startup::Static { preset_name: name.clone() }),
            None => Err(ConfigError::StaticPresetNameMissing),
        },
        PresenceKind::SystemInfo => match &config.static_preset_name {
            Some(name) => Ok(Startup::SystemInfo { preset_name: name.clone() }),
            None => Err(ConfigError::StaticPresetNameMissing),
        },
        PresenceKind::CustomDynamic => match &config.dynamic_preset_names {
            Some(names) => Ok(Startup::Dynamic { preset_names: copy_names(names) }),
            None => Err(ConfigError::DynamicPresetNamesMissing),
        },
    }
}

/// The start of the elapsed time: `now_secs` in milliseconds where the
/// configuration asks for the elapsed time, none where it does not say so.
pub open spec fn elapsed_start(with_elapsed_time: Option<bool>, now_secs: u64) -> Option<i64> {
    if with_elapsed_time == Some(true) {
        Some((now_secs * 1000) as i64)
    } else {
        None
    }
}

/// The start of the elapsed time for a client started at `now_secs` seconds
/// since the Unix epoch.
pub fn start_timestamp(with_elapsed_time: Option<bool>, now_secs: u64) -> (res: Option<i64>)
    requires
        with_elapsed_time == Some(true) ==> now_secs * 1000 <= i64::MAX,
    ensures
        res == elapsed_start(with_elapsed_time, now_secs),
{
    match with_elapsed_time {
        Some(true) => Some(now_secs as i64 * 1000),
        _ => None,
    }
}

/// The start of the local day, in milliseconds since the Unix epoch, for a
/// clock at `now_millis` that is `seconds_from_midnight` into the local day;
/// the system information presence counts its elapsed time from there, so
/// that it shows the local time of day.
pub fn start_of_day_millis(now_millis: i64, seconds_from_midnight: u32) -> (res: i64)
    requires
        now_millis - seconds_from_midnight * 1000 >= i64::MIN,
    ensures
        res == now_millis - seconds_from_midnight * 1000,
{
    now_millis - seconds_from_midnight as i64 * 1000
}

/// Whether a client must leave at once because `running` clients (itself
/// included) are running.
pub fn is_duplicate_instance(running: usize) -> (res: bool)
    ensures
        res == (running > 1),
{
    running > 1
}

/// A key that was pressed: its character, if it is one, and the modifier
/// keys held with it.
pub struct KeyPress {
    pub character: Option<char>,
    pub shift: bool,
    pub control: bool,
    pub alt: bool,
}

/// Whether a terminal event (`None` for one that is no key press) asks to
/// reload the presets: `r` with CTRL and no other modifier.
pub fn is_reload_request(event: &Option<KeyPress>) -> (res: bool)
    ensures
        res == (event matches Some(k) && k.character == Some('r') && k.control && !k.shift
            && !k.alt),
{
    match event {
        Some(k) => match k.character {
            Some(c) => c == 'r' && k.control && !k.shift && !k.alt,
            None => false,
        },
        None => false,
    }
}

/// The elapsed time starts only where the configuration asks for it, and
/// then at the start time in whole seconds, counted in milliseconds.
pub proof fn lemma_elapsed_start_in_millis(with_elapsed_time: Option<bool>, now_secs: u64)
    requires
        with_elapsed_time == Some(true) ==> now_secs * 1000 <= i64::MAX,
    ensures
        elapsed_start(with_elapsed_time, now_secs) is Some <==> with_elapsed_time == Some(true),
        elapsed_start(with_elapsed_time, now_secs) matches Some(ms) ==> ms % 1000 == 0 && ms
            / 1000 == now_secs,
{
}

} // verus!
