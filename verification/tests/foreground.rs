use privacy_aperture::foreground::{distinct_running, windowed_applications, ForegroundApplication, OWN_APP_ID};

fn app(id: &str, name: &str, pid: i32) -> ForegroundApplication {
    ForegroundApplication {
        platform_app_id: id.into(),
        display_name: name.into(),
        process_id: pid,
    }
}

#[test]
fn running_list_is_sorted_deduplicated_and_excludes_itself() {
    let listed = distinct_running(vec![
        app("com.example.mail", "Mail", 1),
        app(OWN_APP_ID, "Privacy Aperture", 2),
        app("com.apple.Notes", "Notes", 3),
        app("com.example.mail", "Mail helper", 4),
        app("com.example.bank", "Bank", 5),
        app("com.apple.notes", "lower notes", 6),
    ]);
    let ids: Vec<&str> = listed.iter().map(|a| a.platform_app_id.as_str()).collect();
    assert_eq!(
        ids,
        vec!["com.apple.Notes", "com.apple.notes", "com.example.bank", "com.example.mail"]
    );
    assert_eq!(listed[3].display_name, "Mail");
    assert_eq!(listed[3].process_id, 1);
}

#[test]
fn empty_and_self_only_lists() {
    assert!(distinct_running(Vec::new()).is_empty());
    assert!(distinct_running(vec![app(OWN_APP_ID, "me", 1)]).is_empty());
    let prefix = distinct_running(vec![app("ab", "x", 1), app("a", "y", 2), app("abc", "z", 3)]);
    let ids: Vec<&str> = prefix.iter().map(|a| a.platform_app_id.as_str()).collect();
    assert_eq!(ids, vec!["a", "ab", "abc"]);
}

#[test]
fn only_window_owners_are_offered_before_deduplication() {
    let reported = vec![
        app("com.example.mail", "Mail helper", 4),
        app("com.apple.Safari", "Safari", 7),
        app("com.example.mail", "Mail", 1),
        app(OWN_APP_ID, "Privacy Aperture", 2),
        app("com.example.agent", "Agent", 9),
    ];
    let windowed = windowed_applications(reported, &vec![1, 2, 7]);
    let pids: Vec<i32> = windowed.iter().map(|a| a.process_id).collect();
    assert_eq!(pids, vec![7, 1, 2]);
    let listed = distinct_running(windowed);
    let names: Vec<&str> = listed.iter().map(|a| a.display_name.as_str()).collect();
    assert_eq!(names, vec!["Safari", "Mail"]);
    assert!(windowed_applications(vec![app("a", "a", 3)], &Vec::new()).is_empty());
}
