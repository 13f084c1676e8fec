//! Configuration model, its validation, rule matching and the admission of
//! browser context messages.
use vstd::prelude::*;
use vstd::string::StringSliceAdditionalSpecFns;

use crate::text::{
    decimal, decimal_text, equals_ascii_lowercase, joined, lemma_text_bytes_injective, lowercase_ok,
    same_text, text_bytes, trim, trimmed, utf8_len,
};

verus! {

pub const CONFIG_VERSION: u32 = 2;

pub const MESSAGE_VERSION: u32 = 1;

pub const MAX_MESSAGE_BYTES: usize = 64 * 1024;

#[derive(Clone, Debug, PartialEq)]
pub struct AppRule {
    pub id: String,
    pub platform_app_id: String,
    pub display_name: String,
    pub visibility_percent: u8,
    pub enabled: bool,
}

#[derive(Clone, Debug, PartialEq)]
pub struct SiteRule {
    pub id: String,
    pub hostname: String,
    pub include_subdomains: bool,
    pub visibility_percent: u8,
    pub enabled: bool,
}

#[derive(Clone, Debug, PartialEq)]
pub struct AppConfig {
    pub config_version: u32,
    pub enabled: bool,
    pub launch_at_login: bool,
    pub emergency_shortcut: String,
    pub hardware_brightness_enabled: bool,
    pub privacy_brightness_percent: u8,
    pub maximum_privacy: bool,
    pub app_rules: Vec<AppRule>,
    pub site_rules: Vec<SiteRule>,
}

/// The configuration a fresh installation starts with.
pub open spec fn is_default_config(c: AppConfig) -> bool {
    &&& c.config_version == CONFIG_VERSION
    &&& c.enabled
    &&& !c.launch_at_login
    &&& c.emergency_shortcut@ == "CommandOrControl+Shift+0"@
    &&& !c.hardware_brightness_enabled
    &&& c.privacy_brightness_percent == 35
    &&& !c.maximum_privacy
    &&& c.app_rules@.len() == 0
    &&& c.site_rules@.len() == 0
}

impl Default for AppConfig {
    fn default() -> (c: Self)
        ensures
            is_default_config(c),
    {
        AppConfig {
            config_version: CONFIG_VERSION,
            enabled: true,
            launch_at_login: false,
            emergency_shortcut: "CommandOrControl+Shift+0".to_owned(),
            hardware_brightness_enabled: false,
            privacy_brightness_percent: 35,
            maximum_privacy: false,
            app_rules: Vec::new(),
            site_rules: Vec::new(),
        }
    }
}

/// The message-level view of a `Result<(), String>`.
pub open spec fn outcome(r: Result<(), String>) -> Result<(), Seq<char>> {
    match r {
        Ok(_) => Ok(()),
        Err(e) => Err(e@),
    }
}

// ---------------------------------------------------------------------------
// Field validation
// ---------------------------------------------------------------------------
/// A visibility (or hardware brightness) percentage in the accepted range.
pub open spec fn visibility_ok(value: u8) -> bool {
    10 <= value <= 100
}

pub open spec fn check_visibility(value: u8) -> Result<(), Seq<char>> {
    if visibility_ok(value) {
        Ok(())
    } else {
        Err("visibility must be between 10 and 100"@)
    }
}

/// A free-text field whose trimmed form holds between 1 and `max` bytes.
pub open spec fn text_ok(value: Seq<char>, max: nat) -> bool {
    0 < utf8_len(trimmed(value)) <= max
}

pub open spec fn check_text(label: Seq<char>, value: Seq<char>, max: nat) -> Result<(), Seq<char>> {
    if text_ok(value, max) {
        Ok(())
    } else {
        Err(label + " must contain 1.."@ + decimal(max) + " characters"@)
    }
}

fn validate_text(label: &str, value: &str, max: usize) -> (r: Result<(), String>)
    requires
        max <= u64::MAX,
    ensures
        outcome(r) == check_text(label@, value@, max as nat),
{
    let length = trim(value).as_bytes().len();
    if length == 0 || length > max {
        let message = joined(joined(label.to_owned(), " must contain 1.."), decimal_text(max as u64).as_str());
        Err(joined(message, " characters"))
    } else {
        Ok(())
    }
}

pub fn validate_visibility(value: u8) -> (r: Result<(), String>)
    ensures
        outcome(r) == check_visibility(value),
{
    if 10 <= value && value <= 100 {
        Ok(())
    } else {
        Err("visibility must be between 10 and 100".to_owned())
    }
}

// ---------------------------------------------------------------------------
// Hostnames
// ---------------------------------------------------------------------------
pub open spec fn is_dot(b: u8) -> bool {
    b == 46
}

pub open spec fn is_hyphen(b: u8) -> bool {
    b == 45
}

/// ASCII letters, digits and the hyphen.
pub open spec fn is_label_byte(b: u8) -> bool {
    ||| 48 <= b <= 57
    ||| 65 <= b <= 90
    ||| 97 <= b <= 122
    ||| is_hyphen(b)
}

/// A DNS label: 1 to 63 letters, digits or hyphens, not starting or ending
/// with a hyphen.
pub open spec fn label_ok(l: Seq<u8>) -> bool {
    &&& 1 <= l.len() <= 63
    &&& !is_hyphen(l[0])
    &&& !is_hyphen(l.last())
    &&& forall|k: int| 0 <= k < l.len() ==> is_label_byte(#[trigger] l[k])
}

/// `b[i..j]` is one of the pieces that splitting `b` at every dot yields.
pub open spec fn is_label_span(b: Seq<u8>, i: int, j: int) -> bool {
    &&& 0 <= i <= j <= b.len()
    &&& (i == 0 || is_dot(b[i - 1]))
    &&& (j == b.len() || is_dot(b[j]))
    &&& forall|k: int| i <= k < j ==> !is_dot(#[trigger] b[k])
}

/// Every piece between dots is a valid label.
pub open spec fn labels_ok(b: Seq<u8>) -> bool {
    forall|i: int, j: int| #[trigger] is_label_span(b, i, j) ==> label_ok(b.subrange(i, j))
}

/// Between 1 and 253 bytes, not starting or ending with a dot.
pub open spec fn hostname_edges_ok(b: Seq<u8>) -> bool {
    &&& 0 < b.len() <= 253
    &&& !is_dot(b[0])
    &&& !is_dot(b.last())
}

pub open spec fn check_hostname(b: Seq<u8>) -> Result<(), Seq<char>> {
    if !hostname_edges_ok(b) {
        Err("hostname must contain 1..253 characters without edge dots"@)
    } else if !labels_ok(b) {
        Err("hostname contains an invalid label"@)
    } else {
        Ok(())
    }
}

fn label_valid(b: &[u8], start: usize, end: usize) -> (r: bool)
    requires
        start <= end <= b@.len(),
    ensures
        r == label_ok(b@.subrange(start as int, end as int)),
{
    let ghost l = b@.subrange(start as int, end as int);
    if end - start < 1 || end - start > 63 || b[start] == 45 || b[end - 1] == 45 {
        return false;
    }
    let mut k = start;
    while k < end
        invariant
            start <= k <= end <= b@.len(),
            l == b@.subrange(start as int, end as int),
            forall|m: int| 0 <= m < k - start ==> is_label_byte(#[trigger] l[m]),
        decreases end - k,
    {
        let c = b[k];
        if !((48 <= c && c <= 57) || (65 <= c && c <= 90) || (97 <= c && c <= 122) || c == 45) {
            assert(!is_label_byte(l[k - start]));
            return false;
        }
        k = k + 1;
    }
    true
}

#[verifier::loop_isolation(false)]
pub fn validate_hostname(hostname: &str) -> (r: Result<(), String>)
    ensures
        outcome(r) == check_hostname(text_bytes(hostname@)),
{
    let b = hostname.as_bytes();
    let n = b.len();
    if n == 0 || n > 253 || b[0] == 46 || b[n - 1] == 46 {
        return Err("hostname must contain 1..253 characters without edge dots".to_owned());
    }
    let ghost s = b@;
    let mut start: usize = 0;
    let mut i: usize = 0;
    while i < n
        invariant
            s == b@,
            n == s.len(),
            hostname_edges_ok(s),
            0 <= start <= i <= n,
            start == 0 || is_dot(s[start - 1]),
            forall|k: int| start <= k < i ==> !is_dot(#[trigger] s[k]),
            forall|p: int, q: int|
                #[trigger] is_label_span(s, p, q) && q < start ==> label_ok(s.subrange(p, q)),
        decreases n - i,
    {
        if b[i] == 46 {
            assert(is_label_span(s, start as int, i as int));
            if !label_valid(b, start, i) {
                assert(!labels_ok(s));
                return Err("hostname contains an invalid label".to_owned());
            }
            assert forall|p: int, q: int|
                #[trigger] is_label_span(s, p, q) && q < i + 1 implies label_ok(s.subrange(p, q)) by {
                if q >= start {
                    if q < i {
                        assert(!is_dot(s[q]));
                    }
                    if p < start {
                        assert(!is_dot(s[start - 1]));
                    }
                    if p > start {
                        assert(!is_dot(s[p - 1]));
                    }
                }
            }
            start = i + 1;
        }
        i = i + 1;
    }
    assert(is_label_span(s, start as int, n as int));
    if !label_valid(b, start, n) {
        return Err("hostname contains an invalid label".to_owned());
    }
    assert forall|p: int, q: int| #[trigger] is_label_span(s, p, q) implies label_ok(
        s.subrange(p, q),
    ) by {
        if q >= start {
            if q < n {
                assert(!is_dot(s[q]));
            }
            if p < start {
                assert(!is_dot(s[start - 1]));
            }
            if p > start {
                assert(!is_dot(s[p - 1]));
            }
        }
    }
    Ok(())
}

// ---------------------------------------------------------------------------
// Whole-configuration validation
// ---------------------------------------------------------------------------
pub open spec fn duplicate_error(platform_app_id: Seq<char>) -> Seq<char> {
    "duplicate platform application id: "@ + platform_app_id
}

/// The first problem with application rule `i`, given the rules before it.
pub open spec fn check_app_rule(rules: Seq<AppRule>, i: int) -> Result<(), Seq<char>> {
    let rule = rules[i];
    if check_text("application rule id"@, rule.id@, 128) is Err {
        check_text("application rule id"@, rule.id@, 128)
    } else if check_text("platform application id"@, rule.platform_app_id@, 512) is Err {
        check_text("platform application id"@, rule.platform_app_id@, 512)
    } else if check_text("application display name"@, rule.display_name@, 160) is Err {
        check_text("application display name"@, rule.display_name@, 160)
    } else if !visibility_ok(rule.visibility_percent) {
        check_visibility(rule.visibility_percent)
    } else if exists|j: int|
        0 <= j < i && (#[trigger] rules[j]).platform_app_id@ == rule.platform_app_id@ {
        Err(duplicate_error(rule.platform_app_id@))
    } else {
        Ok(())
    }
}

/// The first problem among the first `n` application rules.
pub open spec fn check_app_rules(rules: Seq<AppRule>, n: int) -> Result<(), Seq<char>>
    decreases n,
{
    if n <= 0 {
        Ok(())
    } else if check_app_rules(rules, n - 1) is Err {
        check_app_rules(rules, n - 1)
    } else {
        check_app_rule(rules, n - 1)
    }
}

/// The first problem with a website rule.
pub open spec fn check_site_rule(rule: SiteRule) -> Result<(), Seq<char>> {
    if check_text("site rule id"@, rule.id@, 128) is Err {
        check_text("site rule id"@, rule.id@, 128)
    } else if !visibility_ok(rule.visibility_percent) {
        check_visibility(rule.visibility_percent)
    } else if check_hostname(text_bytes(rule.hostname@)) is Err {
        check_hostname(text_bytes(rule.hostname@))
    } else if !lowercase_ok(rule.hostname@) {
        Err("hostname must be lowercase"@)
    } else {
        Ok(())
    }
}

/// The first problem among the first `n` website rules.
pub open spec fn check_site_rules(rules: Seq<SiteRule>, n: int) -> Result<(), Seq<char>>
    decreases n,
{
    if n <= 0 {
        Ok(())
    } else if check_site_rules(rules, n - 1) is Err {
        check_site_rules(rules, n - 1)
    } else {
        check_site_rule(rules[n - 1])
    }
}

/// The first problem with a whole configuration, in the order the fields are
/// checked.
pub open spec fn check_config(c: AppConfig) -> Result<(), Seq<char>> {
    if c.config_version != CONFIG_VERSION {
        Err(
            "unsupported config version "@ + decimal(c.config_version as nat) + "; expected 2"@,
        )
    } else if trimmed(c.emergency_shortcut@).len() == 0 || utf8_len(c.emergency_shortcut@) > 80 {
        Err("emergency shortcut must contain 1..80 characters"@)
    } else if !visibility_ok(c.privacy_brightness_percent) {
        check_visibility(c.privacy_brightness_percent)
    } else if check_app_rules(c.app_rules@, c.app_rules@.len() as int) is Err {
        check_app_rules(c.app_rules@, c.app_rules@.len() as int)
    } else {
        check_site_rules(c.site_rules@, c.site_rules@.len() as int)
    }
}

/// Once a prefix of the application rules has a problem, longer prefixes
/// report the same problem.
proof fn lemma_app_rules_error_persists(rules: Seq<AppRule>, m: int, n: int)
    requires
        0 <= m <= n,
        check_app_rules(rules, m) is Err,
    ensures
        check_app_rules(rules, n) == check_app_rules(rules, m),
    decreases n - m,
{
    if n > m {
        lemma_app_rules_error_persists(rules, m, n - 1);
    }
}

/// Once a prefix of the website rules has a problem, longer prefixes report
/// the same problem.
proof fn lemma_site_rules_error_persists(rules: Seq<SiteRule>, m: int, n: int)
    requires
        0 <= m <= n,
        check_site_rules(rules, m) is Err,
    ensures
        check_site_rules(rules, n) == check_site_rules(rules, m),
    decreases n - m,
{
    if n > m {
        lemma_site_rules_error_persists(rules, m, n - 1);
    }
}

#[verifier::loop_isolation(false)]
fn check_app_rule_exec(rules: &Vec<AppRule>, i: usize) -> (r: Result<(), String>)
    requires
        i < rules@.len(),
    ensures
        outcome(r) == check_app_rule(rules@, i as int),
{
    let rule = &rules[i];
    let r = validate_text("application rule id", rule.id.as_str(), 128);
    if r.is_err() {
        return r;
    }
    let r = validate_text("platform application id", rule.platform_app_id.as_str(), 512);
    if r.is_err() {
        return r;
    }
    let r = validate_text("application display name", rule.display_name.as_str(), 160);
    if r.is_err() {
        return r;
    }
    let r = validate_visibility(rule.visibility_percent);
    if r.is_err() {
        return r;
    }
    let mut j: usize = 0;
    while j < i
        invariant
            i < rules@.len(),
            0 <= j <= i,
            rule == rules@[i as int],
            forall|k: int|
                0 <= k < j ==> (#[trigger] rules@[k]).platform_app_id@ != rule.platform_app_id@,
        decreases i - j,
    {
        if same_text(rules[j].platform_app_id.as_str(), rule.platform_app_id.as_str()) {
            assert(rules@[j as int].platform_app_id@ == rule.platform_app_id@);
            let message = joined(
                "duplicate platform application id: ".to_owned(),
                rule.platform_app_id.as_str(),
            );
            return Err(message);
        }
        j = j + 1;
    }
    Ok(())
}

fn check_site_rule_exec(rule: &SiteRule) -> (r: Result<(), String>)
    ensures
        outcome(r) == check_site_rule(*rule),
{
    let r = validate_text("site rule id", rule.id.as_str(), 128);
    if r.is_err() {
        return r;
    }
    let r = validate_visibility(rule.visibility_percent);
    if r.is_err() {
        return r;
    }
    let r = validate_hostname(rule.hostname.as_str());
    if r.is_err() {
        return r;
    }
    if !equals_ascii_lowercase(rule.hostname.as_str()) {
        return Err("hostname must be lowercase".to_owned());
    }
    Ok(())
}

impl AppConfig {
    #[verifier::loop_isolation(false)]
    pub fn validate(&self) -> (r: Result<(), String>)
        ensures
            outcome(r) == check_config(*self),
    {
        if self.config_version != CONFIG_VERSION {
            let message = joined(
                "unsupported config version ".to_owned(),
                decimal_text(self.config_version as u64).as_str(),
            );
            return Err(joined(message, "; expected 2"));
        }
        if trim(self.emergency_shortcut.as_str()).is_empty()
            || self.emergency_shortcut.as_str().as_bytes().len() > 80 {
            return Err("emergency shortcut must contain 1..80 characters".to_owned());
        }
        let r = validate_visibility(self.privacy_brightness_percent);
        if r.is_err() {
            return r;
        }
        let mut i: usize = 0;
        while i < self.app_rules.len()
            invariant
                0 <= i <= self.app_rules@.len(),
                check_app_rules(self.app_rules@, i as int) == Ok::<(), Seq<char>>(()),
            decreases self.app_rules@.len() - i,
        {
            let r = check_app_rule_exec(&self.app_rules, i);
            if r.is_err() {
                proof {
                    lemma_app_rules_error_persists(
                        self.app_rules@,
                        i + 1,
                        self.app_rules@.len() as int,
                    );
                }
                return r;
            }
            i = i + 1;
        }
        let mut i: usize = 0;
        while i < self.site_rules.len()
            invariant
                0 <= i <= self.site_rules@.len(),
                check_app_rules(self.app_rules@, self.app_rules@.len() as int) == Ok::<
                    (),
                    Seq<char>,
                >(()),
                check_site_rules(self.site_rules@, i as int) == Ok::<(), Seq<char>>(()),
            decreases self.site_rules@.len() - i,
        {
            let r = check_site_rule_exec(&self.site_rules[i]);
            if r.is_err() {
                proof {
                    lemma_site_rules_error_persists(
                        self.site_rules@,
                        i + 1,
                        self.site_rules@.len() as int,
                    );
                }
                return r;
            }
            i = i + 1;
        }
        Ok(())
    }
}

// ---------------------------------------------------------------------------
// Rule matching
// ---------------------------------------------------------------------------
#[derive(Clone, Debug, PartialEq)]
pub struct ForegroundContext<'a> {
    pub platform_app_id: &'a str,
    pub browser_hostname: Option<&'a str>,
}

#[derive(Clone, Copy, Debug, PartialEq, Eq)]
pub enum MatchKind {
    Application,
    Website,
}

#[derive(Clone, Debug, PartialEq)]
pub struct ProtectionMatch<'a> {
    pub kind: MatchKind,
    pub rule_id: &'a str,
    pub visibility_percent: u8,
}

/// Whether the browser hostname `h` (as bytes) falls under `rule`: the same
/// hostname, or, when the rule includes subdomains, a hostname that ends in
/// `.` followed by the rule's hostname with a non-empty label before the dot.
pub open spec fn host_matches(h: Seq<u8>, rule: SiteRule) -> bool {
    let r = text_bytes(rule.hostname@);
    ||| h == r
    ||| rule.include_subdomains && h.len() > r.len() + 1 && h.subrange(
        h.len() - r.len(),
        h.len() as int,
    ) == r && is_dot(h[h.len() - r.len() - 1])
}

pub fn hostname_matches(hostname: &str, rule: &SiteRule) -> (r: bool)
    ensures
        r == host_matches(text_bytes(hostname@), *rule),
{
    proof {
        lemma_text_bytes_injective(hostname@, rule.hostname@);
    }
    if same_text(hostname, rule.hostname.as_str()) {
        return true;
    }
    if !rule.include_subdomains {
        return false;
    }
    let h = hostname.as_bytes();
    let p = rule.hostname.as_str().as_bytes();
    if h.len() <= p.len() || h.len() - p.len() <= 1 {
        return false;
    }
    let hlen = h.len();
    let offset = hlen - p.len();
    if h[offset - 1] != 46 {
        return false;
    }
    let mut k: usize = 0;
    while k < p.len()
        invariant
            h@.len() == hlen,
            h@ == text_bytes(hostname@),
            p@ == text_bytes(rule.hostname@),
            offset == h@.len() - p@.len(),
            0 <= k <= p@.len(),
            forall|m: int| 0 <= m < k ==> h@[offset + m] == #[trigger] p@[m],
        decreases p@.len() - k,
    {
        if h[offset + k] != p[k] {
            assert(h@.subrange(offset as int, h@.len() as int)[k as int] != p@[k as int]);
            return false;
        }
        k = k + 1;
    }
    assert(h@.subrange(offset as int, h@.len() as int) =~= p@);
    true
}

/// Website rule `i` applies to the browser hostname `h`.
pub open spec fn site_candidate(rules: Seq<SiteRule>, h: Seq<u8>, i: int) -> bool {
    0 <= i < rules.len() && rules[i].enabled && host_matches(h, rules[i])
}

/// The specificity of a website rule: the byte length of its hostname.
pub open spec fn site_key(rule: SiteRule) -> nat {
    utf8_len(rule.hostname@)
}

/// Website rule `k` is the one chosen for `h`: it applies, no applying rule
/// has a longer hostname, and among the longest it comes last.
pub open spec fn best_site(rules: Seq<SiteRule>, h: Seq<u8>, k: int) -> bool {
    &&& site_candidate(rules, h, k)
    &&& forall|j: int| #[trigger]
        site_candidate(rules, h, j) ==> site_key(rules[j]) <= site_key(rules[k]) && (j > k
            ==> site_key(rules[j]) < site_key(rules[k]))
}

/// Application rule `i` is enabled and names the foreground application.
pub open spec fn app_candidate(rules: Seq<AppRule>, id: Seq<char>, i: int) -> bool {
    0 <= i < rules.len() && rules[i].enabled && rules[i].platform_app_id@ == id
}

/// Application rule `k` is the first that applies.
pub open spec fn first_app(rules: Seq<AppRule>, id: Seq<char>, k: int) -> bool {
    &&& app_candidate(rules, id, k)
    &&& forall|j: int| 0 <= j < k ==> !#[trigger] app_candidate(rules, id, j)
}

/// Some website rule applies in `context`.
pub open spec fn website_applies(config: AppConfig, context: ForegroundContext) -> bool {
    match context.browser_hostname {
        Some(h) => exists|i: int| #[trigger] site_candidate(config.site_rules@, text_bytes(h@), i),
        None => false,
    }
}

/// The match reports website rule `k` of `config`.
pub open spec fn reports_site(m: ProtectionMatch, config: AppConfig, k: int) -> bool {
    &&& m.kind == MatchKind::Website
    &&& m.rule_id@ == config.site_rules@[k].id@
    &&& m.visibility_percent == config.site_rules@[k].visibility_percent
}

/// The match reports application rule `k` of `config`.
pub open spec fn reports_app(m: ProtectionMatch, config: AppConfig, k: int) -> bool {
    &&& m.kind == MatchKind::Application
    &&& m.rule_id@ == config.app_rules@[k].id@
    &&& m.visibility_percent == config.app_rules@[k].visibility_percent
}

fn best_site_rule(rules: &Vec<SiteRule>, hostname: &str) -> (r: Option<usize>)
    ensures
        r matches Some(k) ==> best_site(rules@, text_bytes(hostname@), k as int),
        r is None ==> forall|i: int| !#[trigger] site_candidate(rules@, text_bytes(hostname@), i),
{
    let ghost h = text_bytes(hostname@);
    let mut best: Option<usize> = None;
    let mut best_len: usize = 0;
    let mut j: usize = 0;
    while j < rules.len()
        invariant
            h == text_bytes(hostname@),
            0 <= j <= rules@.len(),
            best matches Some(k) ==> {
                &&& k < j
                &&& site_candidate(rules@, h, k as int)
                &&& best_len == site_key(rules@[k as int])
                &&& forall|i: int|
                    0 <= i < j && #[trigger] site_candidate(rules@, h, i) ==> site_key(rules@[i])
                        <= site_key(rules@[k as int]) && (i > k ==> site_key(rules@[i]) < site_key(
                        rules@[k as int],
                    ))
            },
            best is None ==> forall|i: int| 0 <= i < j ==> !#[trigger] site_candidate(rules@, h, i),
        decreases rules@.len() - j,
    {
        let rule = &rules[j];
        if rule.enabled && hostname_matches(hostname, rule) {
            let len = rule.hostname.as_str().as_bytes().len();
            if best.is_none() || len >= best_len {
                best = Some(j);
                best_len = len;
            }
        }
        j = j + 1;
    }
    best
}

fn first_app_rule(rules: &Vec<AppRule>, platform_app_id: &str) -> (r: Option<usize>)
    ensures
        r matches Some(k) ==> first_app(rules@, platform_app_id@, k as int),
        r is None ==> forall|i: int| !#[trigger] app_candidate(rules@, platform_app_id@, i),
{
    let mut j: usize = 0;
    while j < rules.len()
        invariant
            0 <= j <= rules@.len(),
            forall|i: int| 0 <= i < j ==> !#[trigger] app_candidate(rules@, platform_app_id@, i),
        decreases rules@.len() - j,
    {
        let rule = &rules[j];
        if rule.enabled && same_text(rule.platform_app_id.as_str(), platform_app_id) {
            return Some(j);
        }
        j = j + 1;
    }
    None
}

/// Chooses the rule that protects the foreground context: nothing while
/// protection is paused; otherwise the most specific applying website rule;
/// otherwise the first applying application rule.
pub fn evaluate<'a>(config: &'a AppConfig, context: &ForegroundContext<'_>) -> (r: Option<
    ProtectionMatch<'a>,
>)
    ensures
        !config.enabled ==> r is None,
        config.enabled && website_applies(*config, *context) ==> (r matches Some(m) && exists|k: int|
            best_site(config.site_rules@, text_bytes(context.browser_hostname->0@), k)
                && reports_site(m, *config, k)),
        config.enabled && website_applies(*config, *context) ==> (r matches Some(m) && exists|k: int|
            #![trigger reports_site(m, *config, k)]
            site_candidate(config.site_rules@, text_bytes(context.browser_hostname->0@), k)
                && reports_site(m, *config, k) && forall|j: int|
                #![trigger config.site_rules@[j]]
                site_candidate(config.site_rules@, text_bytes(context.browser_hostname->0@), j)
                    ==> text_bytes(config.site_rules@[j].hostname@).len() <= text_bytes(
                    config.site_rules@[k].hostname@,
                ).len()),
        config.enabled && !website_applies(*config, *context) ==> (match r {
            Some(m) => exists|k: int|
                first_app(config.app_rules@, context.platform_app_id@, k) && reports_app(
                    m,
                    *config,
                    k,
                ),
            None => forall|i: int|
                !#[trigger] app_candidate(config.app_rules@, context.platform_app_id@, i),
        }),
{
    if !config.enabled {
        return None;
    }
    if let Some(hostname) = context.browser_hostname {
        if let Some(k) = best_site_rule(&config.site_rules, hostname) {
            let rule = &config.site_rules[k];
            let m = ProtectionMatch {
                kind: MatchKind::Website,
                rule_id: rule.id.as_str(),
                visibility_percent: rule.visibility_percent,
            };
            assert(reports_site(m, *config, k as int));
            proof {
                law_most_specific_site_wins(config.site_rules@, text_bytes(hostname@), k as int);
            }
            return Some(m);
        }
    }
    match first_app_rule(&config.app_rules, context.platform_app_id) {
        Some(k) => {
            let rule = &config.app_rules[k];
            let m = ProtectionMatch {
                kind: MatchKind::Application,
                rule_id: rule.id.as_str(),
                visibility_percent: rule.visibility_percent,
            };
            assert(reports_app(m, *config, k as int));
            Some(m)
        },
        None => None,
    }
}

// ---------------------------------------------------------------------------
// Browser context messages
// ---------------------------------------------------------------------------
#[derive(Clone, Debug, PartialEq)]
pub struct NativeMessage {
    pub version: u32,
    pub kind: String,
    pub browser_instance: String,
    pub sequence: u64,
    pub browser_active: bool,
    pub hostname: Option<String>,
}

/// The first problem with the content of a decoded message.
pub open spec fn check_message(m: NativeMessage) -> Result<(), Seq<char>> {
    if m.version != MESSAGE_VERSION || m.kind@ != "active_context"@ {
        Err("unsupported native message"@)
    } else if check_text("browser instance"@, m.browser_instance@, 128) is Err {
        check_text("browser instance"@, m.browser_instance@, 128)
    } else {
        match m.hostname {
            Some(h) => if !m.browser_active {
                Err("hostname must exist only while browser is active"@)
            } else if check_hostname(text_bytes(h@)) is Err {
                check_hostname(text_bytes(h@))
            } else if !lowercase_ok(h@) {
                Err("hostname must be lowercase"@)
            } else {
                Ok(())
            },
            None => if m.browser_active {
                Err("hostname must exist only while browser is active"@)
            } else {
                Ok(())
            },
        }
    }
}

/// The message does not come after the last one accepted from its browser
/// instance.
pub open spec fn is_stale(last: Map<Seq<char>, u64>, m: NativeMessage) -> bool {
    last.contains_key(m.browser_instance@) && m.sequence <= last[m.browser_instance@]
}

/// Whether a decoded message is accepted, given the last accepted sequence of
/// each browser instance.
pub open spec fn admit_message(last: Map<Seq<char>, u64>, m: NativeMessage) -> Result<
    (),
    Seq<char>,
> {
    if check_message(m) is Err {
        check_message(m)
    } else if is_stale(last, m) {
        Err("stale native message sequence"@)
    } else {
        Ok(())
    }
}

/// Whether a frame of `length` bytes, which decoded to `decoded` (or failed to
/// decode), is accepted.
pub open spec fn admit_frame(
    last: Map<Seq<char>, u64>,
    length: nat,
    decoded: Option<NativeMessage>,
) -> Result<(), Seq<char>> {
    if length > MAX_MESSAGE_BYTES {
        Err("native message exceeds 64 KiB"@)
    } else {
        match decoded {
            None => Err("malformed native message"@),
            Some(m) => admit_message(last, m),
        }
    }
}

/// The message-level view of a parse result.
pub open spec fn parse_outcome(r: Result<NativeMessage, String>) -> Result<(), Seq<char>> {
    match r {
        Ok(_) => Ok(()),
        Err(e) => Err(e@),
    }
}

fn validate_message(message: &NativeMessage) -> (r: Result<(), String>)
    ensures
        outcome(r) == check_message(*message),
{
    if message.version != MESSAGE_VERSION || !same_text(message.kind.as_str(), "active_context") {
        return Err("unsupported native message".to_owned());
    }
    let r = validate_text("browser instance", message.browser_instance.as_str(), 128);
    if r.is_err() {
        return r;
    }
    match &message.hostname {
        Some(hostname) => {
            if !message.browser_active {
                return Err("hostname must exist only while browser is active".to_owned());
            }
            let r = validate_hostname(hostname.as_str());
            if r.is_err() {
                return r;
            }
            if !equals_ascii_lowercase(hostname.as_str()) {
                return Err("hostname must be lowercase".to_owned());
            }
            Ok(())
        },
        None => {
            if message.browser_active {
                return Err("hostname must exist only while browser is active".to_owned());
            }
            Ok(())
        },
    }
}

/// Remembers, for each browser instance, the sequence number of the last
/// message it accepted.
pub struct NativeMessageValidator {
    last_sequences: Vec<(String, u64)>,
    last: Ghost<Map<Seq<char>, u64>>,
}

impl View for NativeMessageValidator {
    type V = Map<Seq<char>, u64>;

    closed spec fn view(&self) -> Map<Seq<char>, u64> {
        self.last@
    }
}

impl Default for NativeMessageValidator {
    fn default() -> (v: Self)
        ensures
            v.wf(),
            v@ == Map::<Seq<char>, u64>::empty(),
    {
        NativeMessageValidator { last_sequences: Vec::new(), last: Ghost(Map::empty()) }
    }
}

impl NativeMessageValidator {
    /// The entry list holds exactly the remembered instances, each once.
    pub closed spec fn wf(&self) -> bool {
        let entries = self.last_sequences@;
        &&& forall|i: int|
            0 <= i < entries.len() ==> self.last@.contains_key((#[trigger] entries[i]).0@)
                && self.last@[entries[i].0@] == entries[i].1
        &&& forall|k: Seq<char>|
            #[trigger] self.last@.contains_key(k) ==> exists|i: int|
                0 <= i < entries.len() && (#[trigger] entries[i]).0@ == k
        &&& forall|i: int, j: int|
            0 <= i < j < entries.len() ==> (#[trigger] entries[i]).0@ != (#[trigger] entries[j]).0@
    }

    fn position(&self, browser_instance: &str) -> (r: Option<usize>)
        requires
            self.wf(),
        ensures
            r matches Some(i) ==> i < self.last_sequences@.len()
                && self.last_sequences@[i as int].0@ == browser_instance@,
            r is None ==> !self@.contains_key(browser_instance@),
    {
        let mut i: usize = 0;
        while i < self.last_sequences.len()
            invariant
                self.wf(),
                0 <= i <= self.last_sequences@.len(),
                forall|k: int|
                    0 <= k < i ==> (#[trigger] self.last_sequences@[k]).0@ != browser_instance@,
            decreases self.last_sequences@.len() - i,
        {
            if same_text(self.last_sequences[i].0.as_str(), browser_instance) {
                return Some(i);
            }
            i = i + 1;
        }
        None
    }

    /// Accepts a browser context message. `decoded` is the result of decoding
    /// the JSON object in `bytes` (`None` when it does not decode); the frame
    /// size is checked on `bytes` itself.
    pub fn parse(&mut self, bytes: &[u8], decoded: Option<NativeMessage>) -> (r: Result<
        NativeMessage,
        String,
    >)
        requires
            old(self).wf(),
        ensures
            final(self).wf(),
            parse_outcome(r) == admit_frame(old(self)@, bytes@.len(), decoded),
            r is Ok ==> r == Ok::<NativeMessage, String>(decoded->0) && final(self)@ == old(
                self,
            )@.insert(decoded->0.browser_instance@, decoded->0.sequence),
            r is Err ==> final(self)@ == old(self)@,
    {
        if bytes.len() > MAX_MESSAGE_BYTES {
            return Err("native message exceeds 64 KiB".to_owned());
        }
        let message = match decoded {
            Some(message) => message,
            None => {
                return Err("malformed native message".to_owned());
            },
        };
        let r = validate_message(&message);
        if let Err(e) = r {
            return Err(e);
        }
        let found = self.position(message.browser_instance.as_str());
        match found {
            Some(i) => {
                if message.sequence <= self.last_sequences[i].1 {
                    return Err("stale native message sequence".to_owned());
                }
                let ghost old_entries = self.last_sequences@;
                let key = message.browser_instance.clone();
                self.last_sequences.set(i, (key, message.sequence));
                self.last = Ghost(self.last@.insert(message.browser_instance@, message.sequence));
                assert forall|j: int, k: int|
                    0 <= j < k < self.last_sequences@.len() implies (
                    #[trigger] self.last_sequences@[j]).0@ != (
                    #[trigger] self.last_sequences@[k]).0@ by {
                    assert(old_entries[j].0@ != old_entries[k].0@);
                }
                assert forall|k: Seq<char>| #[trigger]
                    self.last@.contains_key(k) implies exists|j: int|
                    0 <= j < self.last_sequences@.len() && (#[trigger] self.last_sequences@[j]).0@
                        == k by {
                    if k != message.browser_instance@ {
                        let j = choose|j: int|
                            0 <= j < old_entries.len() && (#[trigger] old_entries[j]).0@ == k;
                        assert(self.last_sequences@[j] == old_entries[j]);
                    } else {
                        assert(self.last_sequences@[i as int].0@ == k);
                    }
                }
                assert forall|j: int|
                    0 <= j < self.last_sequences@.len() implies self.last@.contains_key(
                    (#[trigger] self.last_sequences@[j]).0@,
                ) && self.last@[self.last_sequences@[j].0@] == self.last_sequences@[j].1 by {
                    if j != i {
                        assert(old_entries[j].0@ != old_entries[i as int].0@);
                    }
                }
            },
            None => {
                let ghost old_entries = self.last_sequences@;
                let key = message.browser_instance.clone();
                self.last_sequences.push((key, message.sequence));
                self.last = Ghost(self.last@.insert(message.browser_instance@, message.sequence));
                let ghost n = old_entries.len() as int;
                assert forall|j: int, k: int|
                    0 <= j < k < self.last_sequences@.len() implies (
                    #[trigger] self.last_sequences@[j]).0@ != (
                    #[trigger] self.last_sequences@[k]).0@ by {
                    if k == n {
                        assert(old_entries[j] == self.last_sequences@[j]);
                    } else {
                        assert(old_entries[j].0@ != old_entries[k].0@);
                    }
                }
                assert forall|k: Seq<char>| #[trigger]
                    self.last@.contains_key(k) implies exists|j: int|
                    0 <= j < self.last_sequences@.len() && (#[trigger] self.last_sequences@[j]).0@
                        == k by {
                    if k != message.browser_instance@ {
                        let j = choose|j: int|
                            0 <= j < old_entries.len() && (#[trigger] old_entries[j]).0@ == k;
                        assert(self.last_sequences@[j] == old_entries[j]);
                    } else {
                        assert(self.last_sequences@[n].0@ == k);
                    }
                }
                assert forall|j: int|
                    0 <= j < self.last_sequences@.len() implies self.last@.contains_key(
                    (#[trigger] self.last_sequences@[j]).0@,
                ) && self.last@[self.last_sequences@[j].0@] == self.last_sequences@[j].1 by {
                    if j < n {
                        assert(self.last_sequences@[j] == old_entries[j]);
                    }
                }
            },
        }
        Ok(message)
    }

    /// Forgets the last sequence of a browser instance.
    pub fn disconnect(&mut self, browser_instance: &str)
        requires
            old(self).wf(),
        ensures
            final(self).wf(),
            final(self)@ == old(self)@.remove(browser_instance@),
    {
        match self.position(browser_instance) {
            Some(i) => {
                let ghost old_entries = self.last_sequences@;
                self.last_sequences.remove(i);
                self.last = Ghost(self.last@.remove(browser_instance@));
                assert forall|j: int, k: int|
                    0 <= j < k < self.last_sequences@.len() implies (
                    #[trigger] self.last_sequences@[j]).0@ != (
                    #[trigger] self.last_sequences@[k]).0@ by {
                    let a = if j < i { j } else { j + 1 };
                    let b = if k < i { k } else { k + 1 };
                    assert(self.last_sequences@[j] == old_entries[a]);
                    assert(self.last_sequences@[k] == old_entries[b]);
                    assert(old_entries[a].0@ != old_entries[b].0@);
                }
                assert forall|k: Seq<char>| #[trigger]
                    self.last@.contains_key(k) implies exists|j: int|
                    0 <= j < self.last_sequences@.len() && (#[trigger] self.last_sequences@[j]).0@
                        == k by {
                    let j = choose|j: int|
                        0 <= j < old_entries.len() && (#[trigger] old_entries[j]).0@ == k;
                    assert(j != i);
                    if j < i {
                        assert(self.last_sequences@[j] == old_entries[j]);
                    } else {
                        assert(self.last_sequences@[j - 1] == old_entries[j]);
                    }
                }
                assert forall|j: int|
                    0 <= j < self.last_sequences@.len() implies self.last@.contains_key(
                    (#[trigger] self.last_sequences@[j]).0@,
                ) && self.last@[self.last_sequences@[j].0@] == self.last_sequences@[j].1 by {
                    let a = if j < i { j } else { j + 1 };
                    assert(self.last_sequences@[j] == old_entries[a]);
                    assert(old_entries[a].0@ != old_entries[i as int].0@);
                }
            },
            None => {
                assert(self.last@.remove(browser_instance@) =~= self.last@);
            },
        }
    }
}

// ---------------------------------------------------------------------------
// Laws
// ---------------------------------------------------------------------------
proof fn lemma_app_rules_ok(rules: Seq<AppRule>, n: int)
    requires
        check_app_rules(rules, n) is Ok,
    ensures
        forall|i: int| 0 <= i < n ==> #[trigger] check_app_rule(rules, i) is Ok,
    decreases n,
{
    if n > 0 {
        lemma_app_rules_ok(rules, n - 1);
    }
}

proof fn lemma_site_rules_ok(rules: Seq<SiteRule>, n: int)
    requires
        check_site_rules(rules, n) is Ok,
    ensures
        forall|i: int| 0 <= i < n ==> #[trigger] check_site_rule(rules[i]) is Ok,
    decreases n,
{
    if n > 0 {
        lemma_site_rules_ok(rules, n - 1);
    }
}

/// A configuration that validation accepts has the current version, only
/// visibility and brightness levels between 10 and 100, at most one
/// application rule per platform application, and only valid lower-case
/// hostnames in its website rules.
pub proof fn law_accepted_config_is_sound(c: AppConfig)
    requires
        check_config(c) is Ok,
    ensures
        c.config_version == CONFIG_VERSION,
        visibility_ok(c.privacy_brightness_percent),
        forall|i: int|
            0 <= i < c.app_rules@.len() ==> visibility_ok(#[trigger] c.app_rules@[i].visibility_percent),
        forall|i: int, j: int|
            0 <= i < j < c.app_rules@.len() ==> (#[trigger] c.app_rules@[i]).platform_app_id@ != (
            #[trigger] c.app_rules@[j]).platform_app_id@,
        forall|i: int|
            0 <= i < c.site_rules@.len() ==> {
                &&& visibility_ok((#[trigger] c.site_rules@[i]).visibility_percent)
                &&& check_hostname(text_bytes(c.site_rules@[i].hostname@)) is Ok
                &&& lowercase_ok(c.site_rules@[i].hostname@)
            },
{
    lemma_app_rules_ok(c.app_rules@, c.app_rules@.len() as int);
    lemma_site_rules_ok(c.site_rules@, c.site_rules@.len() as int);
    assert forall|i: int|
        0 <= i < c.app_rules@.len() implies visibility_ok(
        #[trigger] c.app_rules@[i].visibility_percent,
    ) by {
        assert(check_app_rule(c.app_rules@, i) is Ok);
    }
    assert forall|i: int, j: int|
        0 <= i < j < c.app_rules@.len() implies (#[trigger] c.app_rules@[i]).platform_app_id@ != (
        #[trigger] c.app_rules@[j]).platform_app_id@ by {
        assert(check_app_rule(c.app_rules@, j) is Ok);
    }
    assert forall|i: int| 0 <= i < c.site_rules@.len() implies {
        &&& visibility_ok((#[trigger] c.site_rules@[i]).visibility_percent)
        &&& check_hostname(text_bytes(c.site_rules@[i].hostname@)) is Ok
        &&& lowercase_ok(c.site_rules@[i].hostname@)
    } by {
        assert(check_site_rule(c.site_rules@[i]) is Ok);
    }
}

/// A message that was just accepted is refused when it arrives again: each
/// browser instance's sequence numbers must strictly increase.
pub proof fn law_replayed_message_is_stale(last: Map<Seq<char>, u64>, m: NativeMessage)
    requires
        admit_message(last, m) is Ok,
    ensures
        admit_message(last.insert(m.browser_instance@, m.sequence), m) == Err::<(), Seq<char>>(
            "stale native message sequence"@,
        ),
{
}

/// After a browser instance disconnects, its next well-formed message is
/// accepted whatever its sequence number.
pub proof fn law_disconnect_forgets_sequence(last: Map<Seq<char>, u64>, m: NativeMessage)
    requires
        check_message(m) is Ok,
    ensures
        admit_message(last.remove(m.browser_instance@), m) is Ok,
{
}

/// Frames larger than 64 KiB are refused whatever they decode to.
pub proof fn law_oversized_frame_is_refused(
    last: Map<Seq<char>, u64>,
    length: nat,
    decoded: Option<NativeMessage>,
)
    requires
        length > MAX_MESSAGE_BYTES,
    ensures
        admit_frame(last, length, decoded) == Err::<(), Seq<char>>(
            "native message exceeds 64 KiB"@,
        ),
{
}

/// The configuration of a fresh installation passes validation.
pub proof fn law_default_config_is_valid(c: AppConfig)
    requires
        is_default_config(c),
    ensures
        check_config(c) is Ok,
{
    let s = c.emergency_shortcut@;
    reveal_strlit("CommandOrControl+Shift+0");
    assert(s.len() == 24);
    assert(!crate::text::is_unicode_whitespace(s[0]));
    assert(!crate::text::is_unicode_whitespace(s[23]));
    assert(crate::text::trim_start_ws(s) == s);
    assert(crate::text::trim_end_ws(s) == s);
    assert(vstd::utf8::is_ascii_chars(s));
    vstd::utf8::is_ascii_chars_encode_utf8(s);
    assert(check_app_rules(c.app_rules@, 0) is Ok);
    assert(check_site_rules(c.site_rules@, 0) is Ok);
}

/// A website rule covers another hostname only through a label boundary: the
/// rule includes subdomains, and the hostname is a non-empty label prefix,
/// a dot, and the rule's hostname.
pub proof fn law_subdomain_match_is_label_bounded(h: Seq<u8>, rule: SiteRule)
    requires
        host_matches(h, rule),
        h != text_bytes(rule.hostname@),
    ensures
        rule.include_subdomains,
        ({
            let r = text_bytes(rule.hostname@);
            let prefix = h.subrange(0, h.len() - r.len() - 1);
            &&& prefix.len() >= 1
            &&& h == prefix + seq![46u8] + r
        }),
{
    let r = text_bytes(rule.hostname@);
    let prefix = h.subrange(0, h.len() - r.len() - 1);
    assert(h =~= prefix + seq![46u8] + r);
}

/// The website rule chosen for a hostname is one of the most specific that
/// apply: no enabled rule matching the hostname has a longer hostname, in
/// UTF-8 bytes (`str::len`).
pub proof fn law_most_specific_site_wins(rules: Seq<SiteRule>, h: Seq<u8>, k: int)
    requires
        best_site(rules, h, k),
    ensures
        0 <= k < rules.len(),
        rules[k].enabled,
        host_matches(h, rules[k]),
        forall|j: int|
            0 <= j < rules.len() && rules[j].enabled && host_matches(h, #[trigger] rules[j])
                ==> text_bytes(rules[j].hostname@).len() <= text_bytes(rules[k].hostname@).len(),
{
    assert forall|j: int|
        0 <= j < rules.len() && rules[j].enabled && host_matches(h, #[trigger] rules[j]) implies text_bytes(
        rules[j].hostname@,
    ).len() <= text_bytes(rules[k].hostname@).len() by {
        assert(site_candidate(rules, h, j));
    }
}

/// Two application rules that agree on everything but whether they are
/// enabled.
pub open spec fn same_app_rule_but_enabled(a: AppRule, b: AppRule) -> bool {
    &&& a.id@ == b.id@
    &&& a.platform_app_id@ == b.platform_app_id@
    &&& a.display_name@ == b.display_name@
    &&& a.visibility_percent == b.visibility_percent
}

/// Two website rules that agree on everything but whether they are enabled.
pub open spec fn same_site_rule_but_enabled(a: SiteRule, b: SiteRule) -> bool {
    &&& a.id@ == b.id@
    &&& a.hostname@ == b.hostname@
    &&& a.include_subdomains == b.include_subdomains
    &&& a.visibility_percent == b.visibility_percent
}

proof fn lemma_app_rules_ignore_enabled(a: Seq<AppRule>, b: Seq<AppRule>, n: int)
    requires
        a.len() == b.len(),
        0 <= n <= a.len(),
        forall|i: int| 0 <= i < a.len() ==> same_app_rule_but_enabled(#[trigger] a[i], b[i]),
    ensures
        check_app_rules(a, n) == check_app_rules(b, n),
    decreases n,
{
    if n > 0 {
        lemma_app_rules_ignore_enabled(a, b, n - 1);
        let i = n - 1;
        assert(same_app_rule_but_enabled(a[i], b[i]));
        if exists|j: int| 0 <= j < i && (#[trigger] a[j]).platform_app_id@ == a[i].platform_app_id@ {
            let j = choose|j: int|
                0 <= j < i && (#[trigger] a[j]).platform_app_id@ == a[i].platform_app_id@;
            assert(same_app_rule_but_enabled(a[j], b[j]));
            assert(b[j].platform_app_id@ == b[i].platform_app_id@);
        }
        if exists|j: int| 0 <= j < i && (#[trigger] b[j]).platform_app_id@ == b[i].platform_app_id@ {
            let j = choose|j: int|
                0 <= j < i && (#[trigger] b[j]).platform_app_id@ == b[i].platform_app_id@;
            assert(same_app_rule_but_enabled(a[j], b[j]));
            assert(a[j].platform_app_id@ == a[i].platform_app_id@);
        }
        assert(check_app_rule(a, i) == check_app_rule(b, i));
    }
}

proof fn lemma_site_rules_ignore_enabled(a: Seq<SiteRule>, b: Seq<SiteRule>, n: int)
    requires
        a.len() == b.len(),
        0 <= n <= a.len(),
        forall|i: int| 0 <= i < a.len() ==> same_site_rule_but_enabled(#[trigger] a[i], b[i]),
    ensures
        check_site_rules(a, n) == check_site_rules(b, n),
    decreases n,
{
    if n > 0 {
        lemma_site_rules_ignore_enabled(a, b, n - 1);
        assert(same_site_rule_but_enabled(a[n - 1], b[n - 1]));
        assert(check_site_rule(a[n - 1]) == check_site_rule(b[n - 1]));
    }
}

/// Whether a rule is enabled plays no part in validation: two
/// configurations that differ only in the enabled flags of their rules are
/// accepted or refused alike, with the same problem. In particular a
/// disabled rule is as valid as the same rule enabled.
pub proof fn law_validation_ignores_enabled_flags(c: AppConfig, d: AppConfig)
    requires
        c.config_version == d.config_version,
        c.emergency_shortcut@ == d.emergency_shortcut@,
        c.privacy_brightness_percent == d.privacy_brightness_percent,
        c.app_rules@.len() == d.app_rules@.len(),
        forall|i: int|
            0 <= i < c.app_rules@.len() ==> same_app_rule_but_enabled(
                #[trigger] c.app_rules@[i],
                d.app_rules@[i],
            ),
        c.site_rules@.len() == d.site_rules@.len(),
        forall|i: int|
            0 <= i < c.site_rules@.len() ==> same_site_rule_but_enabled(
                #[trigger] c.site_rules@[i],
                d.site_rules@[i],
            ),
    ensures
        check_config(c) == check_config(d),
{
    lemma_app_rules_ignore_enabled(c.app_rules@, d.app_rules@, c.app_rules@.len() as int);
    lemma_site_rules_ignore_enabled(c.site_rules@, d.site_rules@, c.site_rules@.len() as int);
}

} // verus!
