use sidecar::update;
use std::time::Duration;

fn secs(raw: &str) -> Option<Duration> {
    update::ttl(raw).map(Duration::from_secs)
}

#[test]
fn beta() {
    assert!(update::newer("v0.1.0-beta.2", "v0.1.0-beta.1"));
    assert!(!update::newer("v0.1.0-beta.1", "v0.1.0-beta.2"));
}

#[test]
fn stable() {
    assert!(update::newer("v0.1.0", "v0.1.0-beta.5"));
    assert!(!update::newer("v0.1.0-beta.5", "v0.1.0"));
}

#[test]
fn equal() {
    assert!(!update::newer("v0.1.0-beta.1", "v0.1.0-beta.1"));
    assert!(!update::newer("v0.1.0", "v0.1.0"));
}

#[test]
fn minor() {
    assert!(update::newer("v0.2.0-beta.1", "v0.1.5"));
}

#[test]
fn ttl() {
    assert_eq!(secs("0"), Some(Duration::from_secs(0)));
    assert_eq!(secs("90"), Some(Duration::from_secs(90)));
    assert_eq!(secs("30s"), Some(Duration::from_secs(30)));
    assert_eq!(secs("5m"), Some(Duration::from_secs(300)));
    assert_eq!(secs("2h"), Some(Duration::from_secs(7200)));
    assert_eq!(secs("1d"), Some(Duration::from_secs(86400)));
    assert_eq!(secs(""), None);
    assert_eq!(secs("garbage"), None);
}

#[test]
fn malformed() {
    assert!(!update::newer("garbage", "v0.1.0"));
    assert!(!update::newer("v0.1.0", "garbage"));
}

#[test]
fn dev() {
    assert!(!update::enabled("dev", None));
    assert!(!update::enabled("", None));
}

#[test]
fn muted() {
    assert!(!update::enabled("beta", Some("1")));
    assert!(update::enabled("beta", Some("0")));
}

#[test]
fn unmuted_when_setting_is_empty_or_absent() {
    assert!(update::enabled("beta", Some("")));
    assert!(update::enabled("stable", None));
}

#[test]
fn version_forms() {
    assert!(update::version("garbage").is_none());
    assert!(update::version("1.2").is_none());
    assert!(update::version("1.2.3.4").is_none());
    let v = update::version(" v1.2.3-beta.4 ").unwrap();
    assert_eq!(v.base, (1, 2, 3));
    assert_eq!(v.pre, (0, 4));
    let v = update::version("1.2.3").unwrap();
    assert_eq!(v.pre, (1, 0));
}

#[test]
fn newer_by_patch_and_major() {
    assert!(update::newer("v1.0.0", "v0.9.9"));
    assert!(update::newer("v0.1.1", "v0.1.0"));
    assert!(!update::newer("v0.1.0", "v0.1.1"));
}

#[test]
fn channel_prefers_configured() {
    assert_eq!(update::channel("beta", Some("stable")), "stable");
    assert_eq!(update::channel("beta", Some("")), "beta");
    assert_eq!(update::channel("beta", None), "beta");
}

#[test]
fn freshness() {
    assert!(update::fresh(100, 150, 60));
    assert!(!update::fresh(100, 160, 60));
    assert!(!update::fresh(100, 150, 0));
    assert!(update::fresh(200, 150, 1));
}

#[test]
fn latest_url_trims_slashes() {
    assert_eq!(
        update::latest_url("https://x.test//", "beta", "metadata.json"),
        "https://x.test/beta/latest/metadata.json"
    );
}

#[test]
fn ttl_overflow_is_no_duration() {
    assert_eq!(update::ttl("213503982334602d"), None);
    assert_eq!(update::ttl("18446744073709551615"), Some(u64::MAX));
    assert_eq!(update::ttl("18446744073709551616"), None);
}

#[test]
fn cached_release_when_fresh() {
    let text = "{\"checked_at\":100,\"channel\":\"beta\",\"latest_version\":\"v1.2.0\"}";
    assert_eq!(update::cached_release(text, "beta", 150, 60), Some("v1.2.0".to_string()));
    assert_eq!(update::cached_release(text, "beta", 160, 60), None);
    assert_eq!(update::cached_release(text, "beta", 150, 0), None);
    assert_eq!(update::cached_release(text, "stable", 150, 60), None);
    assert_eq!(update::cached_release("garbage", "beta", 150, 60), None);
}

#[test]
fn release_version_of_metadata() {
    assert_eq!(
        update::release_of("{\"releaseVersion\":\"v0.4.1\"}"),
        Some("v0.4.1".to_string())
    );
    assert_eq!(update::release_of("{\"releaseVersion\":1}"), None);
}
