//! One protection pass: the foreground application is matched against the
//! application rules, hardware brightness follows the match, and the status
//! shown to the user is rebuilt.
use vstd::prelude::*;

use crate::brightness::{BrightnessControl, BrightnessDisplay};
use crate::domain::{app_candidate, evaluate, first_app, AppConfig, ForegroundContext};
use crate::foreground::ForegroundApplication;

verus! {

#[derive(Clone, Debug, PartialEq)]
pub struct ProtectionStatus {
    pub foreground_supported: bool,
    pub foreground_app: Option<ForegroundApplication>,
    pub matched_rule_id: Option<String>,
    pub matched_visibility_percent: Option<u8>,
    pub hardware_active: bool,
    pub message: String,
}

pub open spec fn watching_message(foreground_supported: bool) -> Seq<char> {
    if foreground_supported {
        "Watching current foreground application locally"@
    } else {
        "Foreground application automation is not available on this platform yet"@
    }
}

impl ProtectionStatus {
    /// The status before the first protection pass.
    pub fn new(foreground_supported: bool) -> (s: Self)
        ensures
            s.foreground_supported == foreground_supported,
            s.foreground_app is None,
            s.matched_rule_id is None,
            s.matched_visibility_percent is None,
            !s.hardware_active,
            s.message@ == watching_message(foreground_supported),
    {
        ProtectionStatus {
            foreground_supported,
            foreground_app: None,
            matched_rule_id: None,
            matched_visibility_percent: None,
            hardware_active: false,
            message: if foreground_supported {
                "Watching current foreground application locally".to_owned()
            } else {
                "Foreground application automation is not available on this platform yet".to_owned()
            },
        }
    }
}

/// What protection a matched application rule asks for.
#[derive(Clone, Debug, PartialEq)]
pub struct ProtectionTarget {
    pub rule_id: String,
    pub visibility_percent: u8,
    pub hardware_percent: Option<u8>,
}

/// The hardware level protection uses: none unless hardware brightness is
/// enabled; 10 percent under maximum privacy; otherwise the configured level.
pub open spec fn hardware_level(config: AppConfig) -> Option<u8> {
    if config.hardware_brightness_enabled {
        Some(
            if config.maximum_privacy {
                10
            } else {
                config.privacy_brightness_percent
            },
        )
    } else {
        None
    }
}

/// The index of the application rule that protects `platform_app_id`, if any.
pub open spec fn target_rule(config: AppConfig, platform_app_id: Seq<char>) -> Option<int> {
    if config.enabled && exists|i: int| #[trigger]
        app_candidate(config.app_rules@, platform_app_id, i) {
        Some(choose|k: int| first_app(config.app_rules@, platform_app_id, k))
    } else {
        None
    }
}

/// `t` is the protection `config` asks for while `platform_app_id` is in the
/// foreground.
pub open spec fn is_target_for(
    t: Option<ProtectionTarget>,
    config: AppConfig,
    platform_app_id: Seq<char>,
) -> bool {
    match target_rule(config, platform_app_id) {
        None => t is None,
        Some(k) => t matches Some(x) && x.rule_id@ == config.app_rules@[k].id@
            && x.visibility_percent == config.app_rules@[k].visibility_percent && x.hardware_percent
            == hardware_level(config),
    }
}

/// The protection the configuration asks for while `foreground` is the
/// foreground application.
pub fn protection_target(config: &AppConfig, foreground: &ForegroundApplication) -> (r: Option<
    ProtectionTarget,
>)
    ensures
        is_target_for(r, *config, foreground.platform_app_id@),
        r matches Some(t) ==> (t.hardware_percent is None <==> !config.hardware_brightness_enabled),
        r matches Some(t) ==> (config.hardware_brightness_enabled && config.maximum_privacy
            ==> t.hardware_percent == Some(10u8)),
        r matches Some(t) ==> (config.hardware_brightness_enabled && !config.maximum_privacy
            ==> t.hardware_percent == Some(config.privacy_brightness_percent)),
{
    let context = ForegroundContext {
        platform_app_id: foreground.platform_app_id.as_str(),
        browser_hostname: None,
    };
    assert(!crate::domain::website_applies(*config, context));
    let matched = evaluate(config, &context);
    match matched {
        None => {
            assert(context.platform_app_id@ == foreground.platform_app_id@);
            assert(config.enabled ==> forall|i: int|
                !#[trigger] app_candidate(config.app_rules@, foreground.platform_app_id@, i));
            assert(target_rule(*config, foreground.platform_app_id@) is None);
            None
        },
        Some(m) => {
            let hardware_percent = if config.hardware_brightness_enabled {
                Some(
                    if config.maximum_privacy {
                        10
                    } else {
                        config.privacy_brightness_percent
                    },
                )
            } else {
                None
            };
            let t = ProtectionTarget {
                rule_id: m.rule_id.to_owned(),
                visibility_percent: m.visibility_percent,
                hardware_percent,
            };
            proof {
                let k = choose|k: int|
                    first_app(config.app_rules@, foreground.platform_app_id@, k)
                        && crate::domain::reports_app(m, *config, k);
                assert(app_candidate(config.app_rules@, foreground.platform_app_id@, k));
                let c = choose|c: int| first_app(config.app_rules@, foreground.platform_app_id@, c);
                if c < k {
                    assert(!app_candidate(config.app_rules@, foreground.platform_app_id@, c));
                }
                if k < c {
                    assert(!app_candidate(config.app_rules@, foreground.platform_app_id@, k));
                }
            }
            Some(t)
        },
    }
}

/// `t` is the protection asked for while `foreground` (if any) is in front.
pub open spec fn is_target_for_foreground(
    t: Option<ProtectionTarget>,
    config: AppConfig,
    foreground: Option<ForegroundApplication>,
) -> bool {
    match foreground {
        None => t is None,
        Some(app) => is_target_for(t, config, app.platform_app_id@),
    }
}

/// Hardware brightness follows the target: automatic protection at the
/// target's level when it asks for hardware dimming, otherwise automatic
/// protection ends.
pub open spec fn brightness_follows<
    S,
    R: FnOnce(&S) -> Result<(), String>,
    C: FnOnce() -> Result<(S, Vec<BrightnessDisplay>), String>,
    T: FnOnce(&S, u8) -> Result<(), String>,
>(
    t: Option<ProtectionTarget>,
    before: BrightnessControl<S>,
    restore: R,
    capture: C,
    set: T,
    after: BrightnessControl<S>,
    res: Result<bool, String>,
) -> bool {
    match t {
        Some(x) => match x.hardware_percent {
            Some(percent) => BrightnessControl::reconcile_result(
                before,
                x.rule_id,
                percent,
                capture,
                set,
                after,
                res,
            ),
            None => BrightnessControl::clear_result(before, restore, after, res),
        },
        None => BrightnessControl::clear_result(before, restore, after, res),
    }
}

/// Whether hardware dimming is reported active after the pass.
pub open spec fn reported_active(res: Result<bool, String>) -> bool {
    match res {
        Ok(active) => active,
        Err(_) => false,
    }
}

/// The status message after the pass.
pub open spec fn refresh_message(matched: bool, res: Result<bool, String>) -> Seq<char> {
    match res {
        Ok(active) => if matched {
            if active {
                "Protected application matched; hardware brightness reduced"@
            } else {
                "Protected application matched"@
            }
        } else {
            "No protected application matched"@
        },
        Err(e) => e@,
    }
}

/// The status reports the pass for `foreground` with target `t` and
/// hardware outcome `res`.
pub open spec fn reports_pass(
    s: ProtectionStatus,
    foreground_supported: bool,
    foreground: Option<ForegroundApplication>,
    t: Option<ProtectionTarget>,
    res: Result<bool, String>,
) -> bool {
    &&& s.foreground_supported == foreground_supported
    &&& s.foreground_app == foreground
    &&& match t {
        Some(x) => (s.matched_rule_id matches Some(id) && id@ == x.rule_id@)
            && s.matched_visibility_percent == Some(x.visibility_percent),
        None => s.matched_rule_id is None && s.matched_visibility_percent is None,
    }
    &&& s.hardware_active == reported_active(res)
    &&& s.message@ == refresh_message(t is Some, res)
}

/// The status after an error: hardware dimming inactive, the error shown,
/// everything else as before.
pub open spec fn reports_error(before: ProtectionStatus, after: ProtectionStatus, message: Seq<char>) -> bool {
    &&& after.foreground_supported == before.foreground_supported
    &&& after.foreground_app == before.foreground_app
    &&& after.matched_rule_id == before.matched_rule_id
    &&& after.matched_visibility_percent == before.matched_visibility_percent
    &&& !after.hardware_active
    &&& after.message@ == message
}

/// Reports a protection error: automatic hardware protection ends and the
/// status shows the error.
pub fn report_error<S, R>(
    status: &mut ProtectionStatus,
    brightness: &mut BrightnessControl<S>,
    message: String,
    restore: R,
)
    where
        R: FnOnce(&S) -> Result<(), String>,
    requires
        old(brightness).wf(),
        forall|s: &S| call_requires(restore, (s,)),
    ensures
        final(brightness).wf(),
        final(brightness).spec_generation() == old(brightness).spec_generation(),
        exists|res: Result<bool, String>|
            BrightnessControl::clear_result(*old(brightness), restore, *final(brightness), res),
        reports_error(*old(status), *final(status), message@),
{
    let _ = brightness.clear_automatic(restore);
    status.hardware_active = false;
    status.message = message;
}

/// One protection pass for the foreground application the platform reported
/// (or its error).
pub fn refresh<S, R, C, T>(
    status: &mut ProtectionStatus,
    brightness: &mut BrightnessControl<S>,
    config: &AppConfig,
    foreground: Result<Option<ForegroundApplication>, String>,
    foreground_supported: bool,
    restore: R,
    capture: C,
    set: T,
)
    where
        R: FnOnce(&S) -> Result<(), String>,
        C: FnOnce() -> Result<(S, Vec<BrightnessDisplay>), String>,
        T: FnOnce(&S, u8) -> Result<(), String>,
    requires
        old(brightness).wf(),
        forall|s: &S| call_requires(restore, (s,)),
        call_requires(capture, ()),
        forall|s: &S, p: u8| call_requires(set, (s, p)),
    ensures
        final(brightness).wf(),
        final(brightness).spec_generation() == old(brightness).spec_generation(),
        match foreground {
            Err(e) => (exists|res: Result<bool, String>|
                BrightnessControl::clear_result(*old(brightness), restore, *final(brightness), res))
                && reports_error(*old(status), *final(status), e@),
            Ok(app) => exists|t: Option<ProtectionTarget>, res: Result<bool, String>|
                is_target_for_foreground(t, *config, app) && brightness_follows(
                    t,
                    *old(brightness),
                    restore,
                    capture,
                    set,
                    *final(brightness),
                    res,
                ) && reports_pass(*final(status), foreground_supported, app, t, res),
        },
{
    let app = match foreground {
        Ok(app) => app,
        Err(error) => {
            report_error(status, brightness, error, restore);
            return;
        },
    };
    let target = match &app {
        Some(a) => protection_target(config, a),
        None => None,
    };
    let ghost t = target;
    let res = match &target {
        Some(x) => match x.hardware_percent {
            Some(percent) => brightness.reconcile_automatic(x.rule_id.clone(), percent, capture, set),
            None => brightness.clear_automatic(restore),
        },
        None => brightness.clear_automatic(restore),
    };
    let ghost rg = res;
    let hardware_active = match &res {
        Ok(active) => *active,
        Err(_) => false,
    };
    let message = match res {
        Ok(active) => if target.is_some() {
            if active {
                "Protected application matched; hardware brightness reduced".to_owned()
            } else {
                "Protected application matched".to_owned()
            }
        } else {
            "No protected application matched".to_owned()
        },
        Err(error) => error,
    };
    let (matched_rule_id, matched_visibility_percent) = match target {
        Some(x) => (Some(x.rule_id), Some(x.visibility_percent)),
        None => (None, None),
    };
    *status = ProtectionStatus {
        foreground_supported,
        foreground_app: app,
        matched_rule_id,
        matched_visibility_percent,
        hardware_active,
        message,
    };
    assert(reports_pass(*status, foreground_supported, app, t, rg));
}

/// Pausing protection releases the hardware: when the configuration turns
/// protection off, whatever session holds the hardware ends and the captured
/// level is restored.
pub fn release_when_paused<S, R>(
    config: &AppConfig,
    brightness: &mut BrightnessControl<S>,
    restore: R,
) -> (r: Result<(), String>)
    where
        R: FnOnce(&S) -> Result<(), String>,
    requires
        old(brightness).wf(),
        forall|s: &S| call_requires(restore, (s,)),
    ensures
        final(brightness).wf(),
        !config.enabled ==> final(brightness).spec_generation() == crate::brightness::next_generation(
            old(brightness).spec_generation(),
        ) && BrightnessControl::restore_result(*old(brightness), restore, *final(brightness), r),
        config.enabled ==> r is Ok && final(brightness).spec_generation() == old(brightness).spec_generation() && BrightnessControl::unchanged(*old(brightness), *final(brightness)),
{
    if !config.enabled {
        brightness.cancel(restore)
    } else {
        Ok(())
    }
}

/// While protection is paused no application rule applies, so a pass ends
/// automatic hardware dimming.
pub proof fn law_pause_targets_nothing(config: AppConfig, platform_app_id: Seq<char>)
    requires
        !config.enabled,
    ensures
        target_rule(config, platform_app_id) is None,
{
}

/// Maximum privacy always asks for the lowest hardware level, 10 percent,
/// whatever level is configured.
pub proof fn law_maximum_privacy_uses_lowest_level(config: AppConfig)
    requires
        config.hardware_brightness_enabled,
        config.maximum_privacy,
    ensures
        hardware_level(config) == Some(10u8),
{
}

/// Hardware brightness is optional: while it is disabled a protection
/// target never asks for a hardware level, whatever maximum privacy says;
/// while it is enabled the target asks for 10 percent under maximum privacy
/// and for the configured level otherwise.
pub proof fn law_hardware_level_follows_the_switch(
    t: Option<ProtectionTarget>,
    config: AppConfig,
    platform_app_id: Seq<char>,
)
    requires
        is_target_for(t, config, platform_app_id),
    ensures
        t matches Some(x) ==> (x.hardware_percent is None <==> !config.hardware_brightness_enabled),
        t matches Some(x) ==> (config.hardware_brightness_enabled ==> x.hardware_percent == Some(
            if config.maximum_privacy {
                10u8
            } else {
                config.privacy_brightness_percent
            },
        )),
{
}

} // verus!
