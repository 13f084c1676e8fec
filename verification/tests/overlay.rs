use privacy_aperture::overlay::alpha_for_visibility;

#[test]
fn visibility_maps_to_overlay_alpha() {
    assert_eq!(alpha_for_visibility(100).unwrap(), 0);
    assert_eq!(alpha_for_visibility(30).unwrap(), 179);
    assert!(alpha_for_visibility(9).is_err());
}

#[test]
fn alpha_rounds_the_hidden_share_of_full_opacity() {
    for visibility in 10u8..=100 {
        let expected = (f64::from(100 - visibility) / 100.0 * 255.0).round() as u8;
        assert_eq!(alpha_for_visibility(visibility).unwrap(), expected);
    }
    assert_eq!(alpha_for_visibility(10).unwrap(), 230);
    assert_eq!(alpha_for_visibility(90).unwrap(), 26);
    assert_eq!(
        alpha_for_visibility(101).unwrap_err(),
        "visibility must be between 10 and 100"
    );
}

use privacy_aperture::overlay::OverlayWindows;
use std::cell::RefCell;
use std::rc::Rc;

type Log = Rc<RefCell<Vec<String>>>;

fn entry(window: &u32, alpha: u8) -> (u32, u8) {
    (*window, alpha)
}

fn same(a: &Vec<(u32, u8)>, b: &Vec<(u32, u8)>) -> bool {
    a == b
}

fn show(log: &Log, fail_at: Option<usize>) -> impl FnMut(usize, &(u32, u8)) -> Result<(), String> {
    let log = log.clone();
    move |index, overlay| {
        if Some(index) == fail_at {
            return Err(format!("window {index} unavailable"));
        }
        log.borrow_mut().push(format!("show {index} {} {}", overlay.0, overlay.1));
        Ok(())
    }
}

fn conceal(log: &Log) -> impl FnMut(usize) -> Result<(), String> {
    let log = log.clone();
    move |index| {
        log.borrow_mut().push(format!("conceal {index}"));
        Ok(())
    }
}

#[test]
fn overlays_follow_the_foreground_windows() {
    let log: Log = Rc::default();
    let mut overlays = OverlayWindows::<(u32, u8)>::new();
    assert_eq!(
        overlays.reconcile(Some(30), &vec![7, 8], entry, same, show(&log, None), conceal(&log)),
        Ok(true)
    );
    assert_eq!(
        overlays.reconcile(Some(30), &vec![7, 8], entry, same, show(&log, None), conceal(&log)),
        Ok(true)
    );
    assert_eq!(
        overlays.reconcile(Some(30), &vec![9], entry, same, show(&log, None), conceal(&log)),
        Ok(true)
    );
    assert_eq!(
        overlays.reconcile(None, &vec![9], entry, same, show(&log, None), conceal(&log)),
        Ok(false)
    );
    assert_eq!(
        overlays.reconcile(None, &vec![9], entry, same, show(&log, None), conceal(&log)),
        Ok(false)
    );
    assert_eq!(
        *log.borrow(),
        vec![
            "show 0 7 179",
            "show 1 8 179",
            "show 0 9 179",
            "conceal 1",
            "conceal 0",
            "conceal 1",
        ]
    );
}

#[test]
fn overlay_errors_are_reported() {
    let log: Log = Rc::default();
    let mut overlays = OverlayWindows::<(u32, u8)>::new();
    assert_eq!(
        overlays.reconcile(Some(5), &vec![1], entry, same, show(&log, None), conceal(&log)),
        Err("visibility must be between 10 and 100".to_string())
    );
    assert_eq!(
        overlays.reconcile(Some(50), &Vec::new(), entry, same, show(&log, None), conceal(&log)),
        Err("Foreground application has no visible standard window".to_string())
    );
    assert_eq!(
        overlays.reconcile(Some(50), &vec![1, 2], entry, same, show(&log, Some(1)), conceal(&log)),
        Err("window 1 unavailable".to_string())
    );
    assert_eq!(
        overlays.reconcile(None, &Vec::new(), entry, same, show(&log, None), conceal(&log)),
        Ok(false)
    );
    assert_eq!(
        *log.borrow(),
        vec!["show 0 1 128", "conceal 0", "conceal 1"]
    );
}

fn conceal_failing(log: &Log, fail_at: usize) -> impl FnMut(usize) -> Result<(), String> {
    let log = log.clone();
    move |index| {
        if index == fail_at {
            return Err(format!("overlay {index} stuck"));
        }
        log.borrow_mut().push(format!("conceal {index}"));
        Ok(())
    }
}

#[test]
fn failed_show_hides_and_tracks_every_touched_overlay() {
    let log: Log = Rc::default();
    let mut overlays = OverlayWindows::<(u32, u8)>::new();
    assert_eq!(
        overlays.reconcile(Some(50), &vec![1, 2, 3], entry, same, show(&log, Some(1)), conceal_failing(&log, 1)),
        Err("window 1 unavailable".to_string())
    );
    // Hiding overlay 1 failed as well, so the next clear tries every tracked window again.
    assert_eq!(
        overlays.reconcile(None, &Vec::new(), entry, same, show(&log, None), conceal(&log)),
        Ok(false)
    );
    assert_eq!(
        overlays.reconcile(None, &Vec::new(), entry, same, show(&log, None), conceal(&log)),
        Ok(false)
    );
    assert_eq!(
        *log.borrow(),
        vec!["show 0 1 128", "conceal 0", "conceal 0", "conceal 1"]
    );
}

#[test]
fn a_smaller_plan_hides_the_surplus_overlays() {
    let log: Log = Rc::default();
    let mut overlays = OverlayWindows::<(u32, u8)>::new();
    assert_eq!(
        overlays.reconcile(Some(30), &vec![1, 2, 3], entry, same, show(&log, None), conceal(&log)),
        Ok(true)
    );
    assert_eq!(
        overlays.reconcile(Some(30), &vec![4], entry, same, show(&log, None), conceal(&log)),
        Ok(true)
    );
    assert_eq!(
        overlays.reconcile(Some(30), &vec![5, 6], entry, same, show(&log, None), conceal(&log)),
        Ok(true)
    );
    assert_eq!(
        *log.borrow(),
        vec![
            "show 0 1 179",
            "show 1 2 179",
            "show 2 3 179",
            "show 0 4 179",
            "conceal 1",
            "conceal 2",
            "show 0 5 179",
            "show 1 6 179",
            "conceal 2",
        ]
    );
}

#[test]
fn preview_holds_until_its_own_timer_ends() {
    let log: Log = Rc::default();
    let mut overlays = OverlayWindows::<(u32, u8)>::new();
    let first = overlays
        .preview(40, &vec![3], entry, same, show(&log, None), conceal(&log))
        .unwrap();
    assert_eq!(
        overlays.reconcile(None, &Vec::new(), entry, same, show(&log, None), conceal(&log)),
        Ok(true)
    );
    let second = overlays
        .preview(60, &vec![3], entry, same, show(&log, None), conceal(&log))
        .unwrap();
    assert_ne!(first, second);
    assert_eq!(overlays.finish_preview(first, conceal(&log)), Ok(()));
    assert_eq!(
        overlays.reconcile(None, &Vec::new(), entry, same, show(&log, None), conceal(&log)),
        Ok(true)
    );
    assert_eq!(overlays.finish_preview(second, conceal(&log)), Ok(()));
    assert_eq!(
        *log.borrow(),
        vec!["show 0 3 153", "show 0 3 102", "conceal 0"]
    );
    assert!(overlays
        .preview(70, &Vec::<u32>::new(), entry, same, show(&log, None), conceal(&log))
        .is_err());
    assert_eq!(
        overlays.reconcile(Some(70), &vec![4], entry, same, show(&log, None), conceal(&log)),
        Ok(true)
    );
    assert_eq!(overlays.clear(conceal(&log)), Ok(()));
    assert_eq!(overlays.cancel_preview(conceal(&log)), Ok(()));
}
