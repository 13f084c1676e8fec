use privacy_aperture::brightness::{backlight_level, description_end, monitor_level, saved_index};
use privacy_aperture::brightness::{needs_display_services, next_display_call, reading_source, scaled_level, snapshot_outcome, DisplayCall, ReadingSource};
use privacy_aperture::brightness::set_every_display;
use std::cell::RefCell;
use std::rc::Rc;

use privacy_aperture::brightness::{
    apply, applied_status, status, unsupported, validate_percent, BrightnessControl,
    BrightnessDisplay, BrightnessStatus,
};

#[test]
fn hardware_bounds_reject_unsafe_values() {
    assert!(validate_percent(9).is_err());
    assert!(validate_percent(10).is_ok());
    assert!(validate_percent(100).is_ok());
}

/// A simulated panel: its level, how often it was captured, and whether
/// writes fail.
#[derive(Default)]
struct Panel {
    level: u8,
    captures: usize,
    fail_set: bool,
    fail_restore: bool,
    log: Vec<String>,
}

type Shared = Rc<RefCell<Panel>>;

fn panel(level: u8) -> Shared {
    Rc::new(RefCell::new(Panel {
        level,
        ..Panel::default()
    }))
}

fn display(level: u8) -> BrightnessDisplay {
    BrightnessDisplay {
        id: "1".into(),
        name: "Built-in display".into(),
        brightness_percent: level,
        built_in: true,
    }
}

fn capture(p: &Shared) -> impl FnOnce() -> Result<(u8, Vec<BrightnessDisplay>), String> {
    let p = p.clone();
    move || {
        let mut panel = p.borrow_mut();
        panel.captures += 1;
        let level = panel.level;
        panel.log.push(format!("capture {level}"));
        Ok((panel.level, vec![display(panel.level)]))
    }
}

fn set(p: &Shared) -> impl FnOnce(&u8, u8) -> Result<(), String> {
    let p = p.clone();
    move |_, percent| {
        let mut panel = p.borrow_mut();
        if panel.fail_set {
            return Err("panel rejected level".into());
        }
        panel.level = percent;
        panel.log.push(format!("set {percent}"));
        Ok(())
    }
}

fn restore(p: &Shared) -> impl FnOnce(&u8) -> Result<(), String> {
    let p = p.clone();
    move |saved| {
        let mut panel = p.borrow_mut();
        if panel.fail_restore {
            return Err("panel busy".into());
        }
        panel.level = *saved;
        panel.log.push(format!("restore {saved}"));
        Ok(())
    }
}

#[test]
fn automatic_protection_captures_once_and_restores_on_clear() {
    let p = panel(80);
    let mut control = BrightnessControl::<u8>::new();
    assert_eq!(
        control.reconcile_automatic("mail".into(), 35, capture(&p), set(&p)),
        Ok(true)
    );
    assert_eq!(p.borrow().level, 35);
    assert_eq!(
        control.reconcile_automatic("bank".into(), 20, capture(&p), set(&p)),
        Ok(true)
    );
    assert_eq!(p.borrow().level, 20);
    assert_eq!(
        control.reconcile_automatic("bank".into(), 20, capture(&p), set(&p)),
        Ok(true)
    );
    assert_eq!(p.borrow().captures, 1);
    assert_eq!(control.clear_automatic(restore(&p)), Ok(false));
    assert_eq!(p.borrow().level, 80);
    assert_eq!(control.clear_automatic(restore(&p)), Ok(false));
    assert_eq!(
        p.borrow().log,
        vec!["capture 80", "set 35", "set 20", "restore 80"]
    );
}

#[test]
fn manual_and_preview_own_the_hardware_until_cancelled() {
    let p = panel(70);
    let mut control = BrightnessControl::<u8>::new();
    let status = control
        .apply_manual(40, restore(&p), capture(&p), set(&p))
        .unwrap();
    assert_eq!(status.message, "Hardware brightness applied");
    assert_eq!(status.displays[0].brightness_percent, 40);
    assert_eq!(
        control.reconcile_automatic("mail".into(), 20, capture(&p), set(&p)),
        Ok(false)
    );
    assert_eq!(control.clear_automatic(restore(&p)), Ok(false));
    assert_eq!(p.borrow().level, 40);
    assert_eq!(control.cancel(restore(&p)), Ok(()));
    assert_eq!(p.borrow().level, 70);
    assert_eq!(
        control.reconcile_automatic("mail".into(), 20, capture(&p), set(&p)),
        Ok(true)
    );
    assert_eq!(p.borrow().level, 20);
}

#[test]
fn preview_ends_only_for_its_own_generation() {
    let p = panel(90);
    let mut control = BrightnessControl::<u8>::new();
    let status = control
        .preview(30, restore(&p), capture(&p), set(&p))
        .unwrap();
    assert_eq!(
        status.message,
        "Hardware brightness preview active for three seconds"
    );
    let first = control.generation();
    assert_eq!(p.borrow().level, 30);
    control
        .preview(50, restore(&p), capture(&p), set(&p))
        .unwrap();
    assert_eq!(p.borrow().level, 50);
    let second = control.generation();
    assert_ne!(first, second);
    assert_eq!(control.restore_preview(first, restore(&p)), Ok(()));
    assert_eq!(p.borrow().level, 50);
    assert_eq!(control.restore_preview(second, restore(&p)), Ok(()));
    assert_eq!(p.borrow().level, 90);
    assert_eq!(
        p.borrow().log,
        vec!["capture 90", "set 30", "restore 90", "capture 90", "set 50", "restore 90"]
    );
}

#[test]
fn failed_restore_keeps_the_session() {
    let p = panel(60);
    let mut control = BrightnessControl::<u8>::new();
    control
        .reconcile_automatic("mail".into(), 25, capture(&p), set(&p))
        .unwrap();
    p.borrow_mut().fail_restore = true;
    assert_eq!(
        control.clear_automatic(restore(&p)),
        Err("panel busy".to_string())
    );
    p.borrow_mut().fail_restore = false;
    assert_eq!(control.clear_automatic(restore(&p)), Ok(false));
    assert_eq!(p.borrow().level, 60);
}

#[test]
fn failed_set_changes_nothing() {
    let p = panel(60);
    p.borrow_mut().fail_set = true;
    let mut control = BrightnessControl::<u8>::new();
    assert_eq!(
        control.reconcile_automatic("mail".into(), 25, capture(&p), set(&p)),
        Err("panel rejected level".to_string())
    );
    assert_eq!(control.cancel(restore(&p)), Ok(()));
    assert!(p.borrow().log.iter().all(|entry| !entry.starts_with("restore")));
    assert_eq!(
        control.apply_manual(5, restore(&p), capture(&p), set(&p)),
        Err("hardware brightness must be between 10 and 100".to_string())
    );
}

#[test]
fn apply_refuses_missing_displays() {
    let result = apply::<u8, _, _>(50, || Ok((1, Vec::new())), |_, _| Ok(()));
    assert_eq!(
        result.unwrap_err(),
        "No controllable display brightness interface found"
    );
    let result = apply::<u8, _, _>(50, || Err("no backlight".to_string()), |_, _| Ok(()));
    assert_eq!(result.unwrap_err(), "no backlight");
    let (status, snapshot) =
        apply::<u8, _, _>(50, || Ok((7, vec![display(7), display(9)])), |_, _| Ok(())).unwrap();
    assert_eq!(snapshot, 7);
    assert!(status.supported);
    assert!(status.displays.iter().all(|d| d.brightness_percent == 50));
}

#[test]
fn status_reports_what_the_platform_found() {
    let found = status(Ok(vec![display(42)]));
    assert_eq!(
        found,
        BrightnessStatus {
            supported: true,
            displays: vec![display(42)],
            message: "Hardware brightness control available".into(),
        }
    );
    let none = status(Ok(Vec::new()));
    assert!(!none.supported);
    assert_eq!(
        none.message,
        "No controllable display brightness interface found"
    );
    assert_eq!(status(Err("denied".into())), unsupported("denied"));
    let applied = applied_status(&vec![display(10), display(90)], 35);
    assert_eq!(applied.displays, vec![display(35), display(35)]);
}

#[test]
fn displays_take_the_level_together_or_not_at_all() {
    let levels = RefCell::new(vec![50u8, 60, 70]);
    let result = set_every_display(
        3,
        |index| {
            if index == 2 {
                return Err("display 2 refused");
            }
            levels.borrow_mut()[index] = 20;
            Ok(())
        },
        |index| {
            levels.borrow_mut()[index] = [50u8, 60, 70][index];
        },
    );
    assert_eq!(result, Err((2, "display 2 refused")));
    assert_eq!(*levels.borrow(), vec![50, 60, 70]);
    let all = set_every_display(
        3,
        |index| {
            levels.borrow_mut()[index] = 20;
            Ok::<(), String>(())
        },
        |_| panic!("nothing to put back"),
    );
    assert_eq!(all, Ok(()));
    assert_eq!(*levels.borrow(), vec![20, 20, 20]);
}

#[test]
fn iokit_first_then_display_services_for_built_in_panels() {
    assert!(!needs_display_services(true, true));
    assert!(needs_display_services(false, true));
    assert!(!needs_display_services(false, false));
    assert_eq!(reading_source(true, false, false), Some(ReadingSource::IoKit));
    assert_eq!(reading_source(true, true, true), Some(ReadingSource::IoKit));
    assert_eq!(reading_source(false, true, true), Some(ReadingSource::DisplayServices));
    assert_eq!(reading_source(false, false, true), None);
    assert_eq!(reading_source(false, true, false), None);
}

#[test]
fn snapshot_fails_only_when_nothing_was_read() {
    assert_eq!(
        snapshot_outcome(Vec::<u32>::new(), vec!["1 (IOKit=-1)".to_string(), "2 (IOKit=-2)".to_string()]),
        Err("No controllable display: 1 (IOKit=-1), 2 (IOKit=-2)".to_string())
    );
    assert_eq!(snapshot_outcome(vec![7u32], vec!["2".to_string()]), Ok(vec![7]));
    assert_eq!(snapshot_outcome(Vec::<u32>::new(), Vec::new()), Ok(Vec::new()));
}

#[test]
fn levels_scale_into_the_display_range() {
    assert_eq!(scaled_level(0, 100, 35), 35);
    assert_eq!(scaled_level(0, 1515, 10), 151);
    assert_eq!(scaled_level(20, 80, 50), 50);
    assert_eq!(scaled_level(5, 5, 100), 5);
    assert_eq!(scaled_level(0, u32::MAX, 100), u32::MAX);
    assert_eq!(scaled_level(0, u32::MAX, 50), u32::MAX / 2);
}

#[test]
fn display_calls_follow_the_all_or_nothing_order() {
    assert_eq!(next_display_call(3, 0, false, 0), Some(DisplayCall::Level(0)));
    assert_eq!(next_display_call(3, 2, false, 0), Some(DisplayCall::Level(2)));
    assert_eq!(next_display_call(3, 3, false, 0), None);
    assert_eq!(next_display_call(3, 2, true, 0), Some(DisplayCall::PutBack(0)));
    assert_eq!(next_display_call(3, 2, true, 1), Some(DisplayCall::PutBack(1)));
    assert_eq!(next_display_call(3, 2, true, 2), None);
}

#[test]
fn only_readable_monitors_with_a_range_are_controlled() {
    assert_eq!(monitor_level(true, 0, 40, 100), Some((0, 40, 100)));
    assert_eq!(monitor_level(false, 0, 40, 100), None);
    assert_eq!(monitor_level(true, 50, 50, 50), None);
    assert_eq!(monitor_level(true, 60, 50, 40), None);
    assert_eq!(backlight_level(1515), Some(1515));
    assert_eq!(backlight_level(0), None);
}

#[test]
fn monitor_descriptions_end_at_the_first_nul() {
    let mut description = [0u16; 128];
    for (index, unit) in "Dell U2720Q".encode_utf16().enumerate() {
        description[index] = unit;
    }
    let end = description_end(&description);
    assert_eq!(end, 11);
    assert_eq!(String::from_utf16_lossy(&description[..end]), "Dell U2720Q");
    assert_eq!(description_end(&[65u16; 128]), 128);
    assert_eq!(description_end(&[]), 0);
}

#[test]
fn captured_monitors_are_found_by_id() {
    let saved = vec!["0-0".to_string(), "1-0".to_string(), "1-0".to_string()];
    assert_eq!(saved_index(&saved, "1-0"), Some(1));
    assert_eq!(saved_index(&saved, "0-0"), Some(0));
    assert_eq!(saved_index(&saved, "2-0"), None);
    assert_eq!(saved_index(&Vec::new(), "0-0"), None);
}
