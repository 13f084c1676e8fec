//! Versions of the stored configuration document.
use vstd::prelude::*;

use crate::domain::{check_config, outcome, AppConfig, AppRule, SiteRule, CONFIG_VERSION};
use crate::text::{decimal, decimal_text, joined};

verus! {

pub const CONFIG_FILE: &'static str = "config.json";

/// How a stored configuration is read: the first version lacks the
/// hardware brightness fields, which take their default values.
#[derive(Clone, Copy, Debug, PartialEq, Eq)]
pub enum StoredVersion {
    Version1,
    Current,
}

pub open spec fn check_stored_version(version: Option<u64>) -> Result<StoredVersion, Seq<char>> {
    match version {
        None => Err("config version is missing or invalid"@),
        Some(v) => if v == 1 {
            Ok(StoredVersion::Version1)
        } else if v == CONFIG_VERSION {
            Ok(StoredVersion::Current)
        } else {
            Err("unsupported config version "@ + decimal(v as nat) + "; expected 2"@)
        },
    }
}

/// Accepts the version field of a stored configuration (`None` when it is
/// missing or not an unsigned integer): version 1 is migrated, the current
/// version is read as it is, anything else is refused.
pub fn stored_version(version: Option<u64>) -> (r: Result<StoredVersion, String>)
    ensures
        match r {
            Ok(v) => check_stored_version(version) == Ok::<StoredVersion, Seq<char>>(v),
            Err(e) => check_stored_version(version) == Err::<StoredVersion, Seq<char>>(e@),
        },
{
    match version {
        None => Err("config version is missing or invalid".to_owned()),
        Some(v) => {
            if v == 1 {
                Ok(StoredVersion::Version1)
            } else if v == CONFIG_VERSION as u64 {
                Ok(StoredVersion::Current)
            } else {
                let m = joined("unsupported config version ".to_owned(), decimal_text(v).as_str());
                Err(joined(m, "; expected 2"))
            }
        },
    }
}

/// A configuration document as it was read from disk, before its version
/// is known: the hardware brightness fields are absent from version 1
/// documents.
pub struct StoredConfig {
    pub config_version: Option<u64>,
    pub enabled: bool,
    pub launch_at_login: bool,
    pub emergency_shortcut: String,
    pub app_rules: Vec<AppRule>,
    pub site_rules: Vec<SiteRule>,
    pub hardware_brightness_enabled: Option<bool>,
    pub privacy_brightness_percent: Option<u8>,
    pub maximum_privacy: Option<bool>,
}

pub open spec fn missing_field_message(field: Seq<char>) -> Seq<char> {
    "could not parse config: missing field `"@ + field + "`"@
}

/// The current configuration a stored document of version `v` stands for: a
/// version 1 document takes the default hardware brightness settings (off,
/// 35 percent, no maximum privacy) and whatever it holds for them is
/// ignored; a current document must hold all three.
pub open spec fn migrated(s: StoredConfig, v: StoredVersion) -> Result<AppConfig, Seq<char>> {
    let with = |hardware: bool, percent: u8, maximum: bool|
        AppConfig {
            config_version: CONFIG_VERSION,
            enabled: s.enabled,
            launch_at_login: s.launch_at_login,
            emergency_shortcut: s.emergency_shortcut,
            hardware_brightness_enabled: hardware,
            privacy_brightness_percent: percent,
            maximum_privacy: maximum,
            app_rules: s.app_rules,
            site_rules: s.site_rules,
        };
    match v {
        StoredVersion::Version1 => Ok(with(false, 35, false)),
        StoredVersion::Current => match (
            s.hardware_brightness_enabled,
            s.privacy_brightness_percent,
            s.maximum_privacy,
        ) {
            (Some(h), Some(p), Some(m)) => Ok(with(h, p, m)),
            (None, _, _) => Err(missing_field_message("hardware_brightness_enabled"@)),
            (_, None, _) => Err(missing_field_message("privacy_brightness_percent"@)),
            (_, _, None) => Err(missing_field_message("maximum_privacy"@)),
        },
    }
}

/// The loaded configuration holds what the document stored: its switches,
/// its shortcut and its rules, and the current version.
pub open spec fn keeps_stored_settings(s: StoredConfig, c: AppConfig) -> bool {
    &&& c.config_version == 2
    &&& c.enabled == s.enabled
    &&& c.launch_at_login == s.launch_at_login
    &&& c.emergency_shortcut@ == s.emergency_shortcut@
    &&& c.app_rules@ == s.app_rules@
    &&& c.site_rules@ == s.site_rules@
}

/// The loaded configuration holds the hardware settings the document stored.
pub open spec fn keeps_hardware_settings(s: StoredConfig, c: AppConfig) -> bool {
    &&& s.hardware_brightness_enabled == Some(c.hardware_brightness_enabled)
    &&& s.privacy_brightness_percent == Some(c.privacy_brightness_percent)
    &&& s.maximum_privacy == Some(c.maximum_privacy)
}

/// The hardware settings of a fresh installation: off, 35 percent, no
/// maximum privacy.
pub open spec fn takes_default_hardware_settings(c: AppConfig) -> bool {
    &&& !c.hardware_brightness_enabled
    &&& c.privacy_brightness_percent == 35
    &&& !c.maximum_privacy
}

/// Loading a document keeps what it stored: every configuration a stored
/// document is read as holds its switches, shortcut and rules; a current
/// document keeps its hardware settings, a version 1 document takes the
/// defaults; and a current document holding all three hardware settings is
/// always read.
pub proof fn law_loading_keeps_stored_settings(s: StoredConfig, v: StoredVersion)
    ensures
        migrated(s, v) matches Ok(c) ==> keeps_stored_settings(s, c),
        migrated(s, v) matches Ok(c) ==> (v == StoredVersion::Current ==> keeps_hardware_settings(
            s,
            c,
        )),
        migrated(s, v) matches Ok(c) ==> (v == StoredVersion::Version1
            ==> takes_default_hardware_settings(c)),
        v == StoredVersion::Current && s.hardware_brightness_enabled is Some
            && s.privacy_brightness_percent is Some && s.maximum_privacy is Some ==> migrated(
            s,
            v,
        ) is Ok,
{
}

/// Reads a stored document as the current configuration: an unknown or
/// missing version is refused, version 1 is migrated in memory, and the
/// result must pass validation.
pub fn migrate(stored: StoredConfig) -> (r: Result<AppConfig, String>)
    ensures
        match check_stored_version(stored.config_version) {
            Err(e) => r matches Err(m) && m@ == e,
            Ok(v) => match migrated(stored, v) {
                Err(e) => r matches Err(m) && m@ == e,
                Ok(c) => match check_config(c) {
                    Ok(_) => r == Ok::<AppConfig, String>(c),
                    Err(e) => r matches Err(m) && m@ == e,
                },
            },
        },
        r matches Ok(c) ==> keeps_stored_settings(stored, c),
        r matches Ok(c) ==> (stored.config_version == Some(2u64) ==> keeps_hardware_settings(
            stored,
            c,
        )),
        r matches Ok(c) ==> (stored.config_version == Some(1u64) ==> takes_default_hardware_settings(c)),
{
    let ghost s = stored;
    let version = match stored_version(stored.config_version) {
        Ok(v) => v,
        Err(e) => {
            return Err(e);
        },
    };
    let (hardware, percent, maximum) = match version {
        StoredVersion::Version1 => (false, 35u8, false),
        StoredVersion::Current => {
            let hardware = match stored.hardware_brightness_enabled {
                Some(h) => h,
                None => {
                    return Err(missing_field("hardware_brightness_enabled"));
                },
            };
            let percent = match stored.privacy_brightness_percent {
                Some(p) => p,
                None => {
                    return Err(missing_field("privacy_brightness_percent"));
                },
            };
            let maximum = match stored.maximum_privacy {
                Some(m) => m,
                None => {
                    return Err(missing_field("maximum_privacy"));
                },
            };
            (hardware, percent, maximum)
        },
    };
    let config = AppConfig {
        config_version: CONFIG_VERSION,
        enabled: stored.enabled,
        launch_at_login: stored.launch_at_login,
        emergency_shortcut: stored.emergency_shortcut,
        hardware_brightness_enabled: hardware,
        privacy_brightness_percent: percent,
        maximum_privacy: maximum,
        app_rules: stored.app_rules,
        site_rules: stored.site_rules,
    };
    assert(migrated(s, version) == Ok::<AppConfig, Seq<char>>(config));
    match config.validate() {
        Ok(()) => Ok(config),
        Err(e) => Err(e),
    }
}

fn missing_field(field: &str) -> (m: String)
    ensures
        m@ == missing_field_message(field@),
{
    joined(joined("could not parse config: missing field `".to_owned(), field), "`")
}

} // verus!
