use privacy_aperture::domain::{
    evaluate, hostname_matches, validate_hostname, validate_visibility, AppConfig, AppRule,
    ForegroundContext, MatchKind, NativeMessage, NativeMessageValidator, SiteRule,
};

fn config() -> AppConfig {
    AppConfig {
        app_rules: vec![AppRule {
            id: "bank-app".into(),
            platform_app_id: "com.example.bank".into(),
            display_name: "Bank".into(),
            visibility_percent: 45,
            enabled: true,
        }],
        site_rules: vec![SiteRule {
            id: "bank-site".into(),
            hostname: "bank.example".into(),
            include_subdomains: true,
            visibility_percent: 30,
            enabled: true,
        }],
        ..AppConfig::default()
    }
}

/// Decodes a native message the way the host's JSON decoder does: an object
/// with exactly the message's fields, `hostname` optional or null.
fn decode(bytes: &[u8]) -> Option<NativeMessage> {
    let value: serde_json::Value = serde_json::from_slice(bytes).ok()?;
    let object = value.as_object()?;
    let known = [
        "version",
        "kind",
        "browser_instance",
        "sequence",
        "browser_active",
        "hostname",
    ];
    if object.keys().any(|key| !known.contains(&key.as_str())) {
        return None;
    }
    let version = u32::try_from(object.get("version")?.as_u64()?).ok()?;
    let hostname = match object.get("hostname") {
        None | Some(serde_json::Value::Null) => None,
        Some(value) => Some(value.as_str()?.to_string()),
    };
    Some(NativeMessage {
        version,
        kind: object.get("kind")?.as_str()?.to_string(),
        browser_instance: object.get("browser_instance")?.as_str()?.to_string(),
        sequence: object.get("sequence")?.as_u64()?,
        browser_active: object.get("browser_active")?.as_bool()?,
        hostname,
    })
}

fn parse(validator: &mut NativeMessageValidator, bytes: &[u8]) -> Result<NativeMessage, String> {
    validator.parse(bytes, decode(bytes))
}

#[test]
fn exact_and_subdomain_matching_respects_boundary() {
    let rule = &config().site_rules[0];
    assert!(hostname_matches("bank.example", rule));
    assert!(hostname_matches("secure.bank.example", rule));
    assert!(!hostname_matches("fakebank.example", rule));
    assert!(!hostname_matches("bank.example.attacker.test", rule));
}

#[test]
fn site_overrides_app_and_pause_overrides_everything() {
    let mut config = config();
    let context = ForegroundContext {
        platform_app_id: "com.example.bank",
        browser_hostname: Some("secure.bank.example"),
    };
    let matched = evaluate(&config, &context).expect("rule should match");
    assert_eq!(matched.kind, MatchKind::Website);
    assert_eq!(matched.visibility_percent, 30);
    config.enabled = false;
    assert_eq!(evaluate(&config, &context), None);
}

#[test]
fn most_specific_hostname_rule_wins() {
    let mut config = config();
    config.site_rules.insert(
        0,
        SiteRule {
            id: "parent-site".into(),
            hostname: "example".into(),
            include_subdomains: true,
            visibility_percent: 70,
            enabled: true,
        },
    );
    let matched = evaluate(
        &config,
        &ForegroundContext {
            platform_app_id: "com.example.browser",
            browser_hostname: Some("bank.example"),
        },
    )
    .expect("specific site rule should match");
    assert_eq!(matched.rule_id, "bank-site");
    assert_eq!(matched.visibility_percent, 30);
}

#[test]
fn config_rejects_duplicate_application_matchers() {
    let mut config = config();
    config.app_rules.push(AppRule {
        id: "bank-app-copy".into(),
        platform_app_id: "com.example.bank".into(),
        display_name: "Bank copy".into(),
        visibility_percent: 20,
        enabled: true,
    });
    assert_eq!(
        config.validate().unwrap_err(),
        "duplicate platform application id: com.example.bank"
    );
}

#[test]
fn browser_context_does_not_apply_after_focus_loss() {
    let config = config();
    let context = ForegroundContext {
        platform_app_id: "com.example.notes",
        browser_hostname: None,
    };
    assert_eq!(evaluate(&config, &context), None);
}

#[test]
fn native_messages_reject_malformed_stale_and_unknown_data() {
    let mut validator = NativeMessageValidator::default();
    let valid = br#"{"version":1,"kind":"active_context","browser_instance":"session-a","sequence":42,"browser_active":true,"hostname":"web.example"}"#;
    assert!(parse(&mut validator, valid).is_ok());
    assert_eq!(
        parse(&mut validator, valid).unwrap_err(),
        "stale native message sequence"
    );
    assert!(parse(&mut validator, b"not json").is_err());
    assert!(parse(&mut validator, br#"{"version":2}"#).is_err());
    assert!(parse(&mut validator, br#"{"version":1,"kind":"active_context","browser_instance":"b","sequence":1,"browser_active":true,"hostname":"web.example","url":"https://web.example/private"}"#).is_err());
}

fn message(instance: &str, sequence: u64, hostname: Option<&str>) -> NativeMessage {
    NativeMessage {
        version: 1,
        kind: "active_context".into(),
        browser_instance: instance.into(),
        sequence,
        browser_active: hostname.is_some(),
        hostname: hostname.map(str::to_string),
    }
}

#[test]
fn native_message_errors_name_their_cause() {
    let mut validator = NativeMessageValidator::default();
    let big = vec![b' '; 64 * 1024 + 1];
    assert_eq!(
        validator.parse(&big, Some(message("a", 1, None))).unwrap_err(),
        "native message exceeds 64 KiB"
    );
    assert_eq!(validator.parse(b"{}", None).unwrap_err(), "malformed native message");
    let mut wrong_kind = message("a", 1, None);
    wrong_kind.kind = "other".into();
    assert_eq!(
        validator.parse(b"{}", Some(wrong_kind)).unwrap_err(),
        "unsupported native message"
    );
    let mut wrong_version = message("a", 1, None);
    wrong_version.version = 2;
    assert_eq!(
        validator.parse(b"{}", Some(wrong_version)).unwrap_err(),
        "unsupported native message"
    );
    assert_eq!(
        validator.parse(b"{}", Some(message("  ", 1, None))).unwrap_err(),
        "browser instance must contain 1..128 characters"
    );
    let mut inactive_with_host = message("a", 1, Some("web.example"));
    inactive_with_host.browser_active = false;
    assert_eq!(
        validator.parse(b"{}", Some(inactive_with_host)).unwrap_err(),
        "hostname must exist only while browser is active"
    );
    let mut active_without_host = message("a", 1, None);
    active_without_host.browser_active = true;
    assert_eq!(
        validator.parse(b"{}", Some(active_without_host)).unwrap_err(),
        "hostname must exist only while browser is active"
    );
    assert_eq!(
        validator.parse(b"{}", Some(message("a", 1, Some("Web.example")))).unwrap_err(),
        "hostname must be lowercase"
    );
    assert_eq!(
        validator.parse(b"{}", Some(message("a", 1, Some("-web.example")))).unwrap_err(),
        "hostname contains an invalid label"
    );
    let exactly_max = vec![b' '; 64 * 1024];
    assert!(validator.parse(&exactly_max, Some(message("a", 1, None))).is_ok());
}

#[test]
fn sequences_are_tracked_per_instance_and_reset_on_disconnect() {
    let mut validator = NativeMessageValidator::default();
    assert!(validator.parse(b"{}", Some(message("a", 5, None))).is_ok());
    assert!(validator.parse(b"{}", Some(message("b", 1, None))).is_ok());
    assert!(validator.parse(b"{}", Some(message("a", 5, None))).is_err());
    assert!(validator.parse(b"{}", Some(message("a", 4, None))).is_err());
    assert!(validator.parse(b"{}", Some(message("a", 6, Some("web.example")))).is_ok());
    validator.disconnect("a");
    assert!(validator.parse(b"{}", Some(message("a", 1, None))).is_ok());
    assert!(validator.parse(b"{}", Some(message("b", 1, None))).is_err());
    validator.disconnect("unknown");
    assert!(validator.parse(b"{}", Some(message("b", 2, None))).is_ok());
}

#[test]
fn accepted_message_is_returned_unchanged() {
    let mut validator = NativeMessageValidator::default();
    let sent = message("session", 9, Some("docs.example.org"));
    assert_eq!(validator.parse(b"{}", Some(sent.clone())).unwrap(), sent);
}

#[test]
fn visibility_bounds() {
    assert!(validate_visibility(9).is_err());
    assert!(validate_visibility(10).is_ok());
    assert!(validate_visibility(100).is_ok());
    assert_eq!(
        validate_visibility(101).unwrap_err(),
        "visibility must be between 10 and 100"
    );
}

#[test]
fn hostnames_follow_label_rules() {
    assert!(validate_hostname("example").is_ok());
    assert!(validate_hostname("a-b.c0.example").is_ok());
    let edge = "hostname must contain 1..253 characters without edge dots";
    assert_eq!(validate_hostname("").unwrap_err(), edge);
    assert_eq!(validate_hostname(".example").unwrap_err(), edge);
    assert_eq!(validate_hostname("example.").unwrap_err(), edge);
    assert_eq!(validate_hostname(&"a".repeat(254)).unwrap_err(), edge);
    let label = "hostname contains an invalid label";
    assert_eq!(validate_hostname("a..b").unwrap_err(), label);
    assert_eq!(validate_hostname("a.-b").unwrap_err(), label);
    assert_eq!(validate_hostname("a.b-").unwrap_err(), label);
    assert_eq!(validate_hostname("a_b.example").unwrap_err(), label);
    assert_eq!(validate_hostname("bänk.example").unwrap_err(), label);
    assert_eq!(validate_hostname(&"a".repeat(64)).unwrap_err(), label);
    assert!(validate_hostname(&"a".repeat(63)).is_ok());
    let long = format!("{}.{}.{}.{}", "a".repeat(63), "b".repeat(63), "c".repeat(63), "d".repeat(61));
    assert_eq!(long.len(), 253);
    assert!(validate_hostname(&long).is_ok());
}

#[test]
fn config_validation_reports_first_problem() {
    assert!(AppConfig::default().validate().is_ok());
    assert!(config().validate().is_ok());
    let mut c = config();
    c.config_version = 7;
    assert_eq!(
        c.validate().unwrap_err(),
        "unsupported config version 7; expected 2"
    );
    let mut c = config();
    c.emergency_shortcut = " \t ".into();
    assert_eq!(
        c.validate().unwrap_err(),
        "emergency shortcut must contain 1..80 characters"
    );
    let mut c = config();
    c.emergency_shortcut = "x".repeat(81);
    assert!(c.validate().is_err());
    let mut c = config();
    c.privacy_brightness_percent = 5;
    assert_eq!(
        c.validate().unwrap_err(),
        "visibility must be between 10 and 100"
    );
    let mut c = config();
    c.app_rules[0].id = "\u{3000}".into();
    assert_eq!(
        c.validate().unwrap_err(),
        "application rule id must contain 1..128 characters"
    );
    let mut c = config();
    c.app_rules[0].display_name = "n".repeat(161);
    assert_eq!(
        c.validate().unwrap_err(),
        "application display name must contain 1..160 characters"
    );
    let mut c = config();
    c.app_rules[0].platform_app_id = String::new();
    assert_eq!(
        c.validate().unwrap_err(),
        "platform application id must contain 1..512 characters"
    );
    let mut c = config();
    c.site_rules[0].hostname = "Bank.example".into();
    assert_eq!(c.validate().unwrap_err(), "hostname must be lowercase");
    let mut c = config();
    c.site_rules[0].id = "".into();
    assert_eq!(
        c.validate().unwrap_err(),
        "site rule id must contain 1..128 characters"
    );
    let mut c = config();
    c.site_rules[0].visibility_percent = 0;
    c.app_rules[0].visibility_percent = 0;
    assert_eq!(
        c.validate().unwrap_err(),
        "visibility must be between 10 and 100"
    );
}

#[test]
fn text_length_counts_trimmed_bytes() {
    let mut c = config();
    c.app_rules[0].id = format!("  {}  ", "é".repeat(64));
    assert!(c.validate().is_ok());
    c.app_rules[0].id = "é".repeat(65);
    assert!(c.validate().is_err());
}

#[test]
fn disabled_rules_and_foreign_hosts_do_not_match() {
    let mut config = config();
    config.site_rules[0].enabled = false;
    let context = ForegroundContext {
        platform_app_id: "com.example.bank",
        browser_hostname: Some("bank.example"),
    };
    let matched = evaluate(&config, &context).unwrap();
    assert_eq!(matched.kind, MatchKind::Application);
    assert_eq!(matched.rule_id, "bank-app");
    assert_eq!(matched.visibility_percent, 45);
    config.app_rules[0].enabled = false;
    assert_eq!(evaluate(&config, &context), None);
}

#[test]
fn exact_rule_without_subdomains_matches_only_itself() {
    let rule = SiteRule {
        id: "s".into(),
        hostname: "example.org".into(),
        include_subdomains: false,
        visibility_percent: 50,
        enabled: true,
    };
    assert!(hostname_matches("example.org", &rule));
    assert!(!hostname_matches("www.example.org", &rule));
    let wide = SiteRule { include_subdomains: true, ..rule };
    assert!(hostname_matches("www.example.org", &wide));
    assert!(!hostname_matches(".example.org", &wide));
    assert!(!hostname_matches("wwwexample.org", &wide));
}

#[test]
fn equally_specific_rules_pick_the_later_one() {
    let mut config = config();
    config.site_rules.push(SiteRule {
        id: "bank-site-2".into(),
        hostname: "bank.example".into(),
        include_subdomains: false,
        visibility_percent: 60,
        enabled: true,
    });
    let matched = evaluate(
        &config,
        &ForegroundContext {
            platform_app_id: "x",
            browser_hostname: Some("bank.example"),
        },
    )
    .unwrap();
    assert_eq!(matched.rule_id, "bank-site-2");
}

#[test]
fn first_matching_application_rule_wins() {
    let mut config = config();
    config.app_rules.push(AppRule {
        id: "second".into(),
        platform_app_id: "com.example.bank".into(),
        display_name: "Second".into(),
        visibility_percent: 80,
        enabled: true,
    });
    let matched = evaluate(
        &config,
        &ForegroundContext {
            platform_app_id: "com.example.bank",
            browser_hostname: None,
        },
    )
    .unwrap();
    assert_eq!(matched.rule_id, "bank-app");
}

#[test]
fn default_config_matches_first_run_settings() {
    let c = AppConfig::default();
    assert_eq!(c.config_version, 2);
    assert!(c.enabled);
    assert!(!c.launch_at_login);
    assert_eq!(c.emergency_shortcut, "CommandOrControl+Shift+0");
    assert!(!c.hardware_brightness_enabled);
    assert_eq!(c.privacy_brightness_percent, 35);
    assert!(!c.maximum_privacy);
    assert!(c.app_rules.is_empty() && c.site_rules.is_empty());
}
