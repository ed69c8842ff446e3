use sqstransfer::config::{Config, ConfigError};

fn text(s: &str) -> String {
    s.to_string()
}

fn some(s: &str) -> Option<String> {
    Some(s.to_string())
}

#[test]
fn forwarding_configuration_is_built() {
    let config =
        Config::new(text("src"), some("dst"), false, "16", some("us-east-1"), None).unwrap();
    assert_eq!(config.source(), "src");
    assert_eq!(config.destination(), "dst");
    assert_eq!(config.threads(), 16);
    assert_eq!(config.region(), "us-east-1");
    assert!(!config.deletes_only());
}

#[test]
fn deleting_configuration_is_built() {
    let config = Config::new(text("src"), None, true, "2", some("eu-west-1"), None).unwrap();
    assert_eq!(config.destination(), "");
    assert_eq!(config.threads(), 2);
    assert!(config.deletes_only());
}

#[test]
fn destination_and_delete_exclude_each_other() {
    let both = Config::new(text("src"), some("dst"), true, "16", some("us-east-1"), None);
    assert_eq!(both.err(), Some(ConfigError::Mode));
    let neither = Config::new(text("src"), None, false, "16", some("us-east-1"), None);
    assert_eq!(neither.err(), Some(ConfigError::Mode));
}

#[test]
fn empty_destination_counts_as_none() {
    let empty = Config::new(text("src"), some(""), false, "16", some("us-east-1"), None);
    assert_eq!(empty.err(), Some(ConfigError::Mode));
    let config = Config::new(text("src"), some(""), true, "16", some("us-east-1"), None).unwrap();
    assert!(config.deletes_only());
}

#[test]
fn worker_count_must_be_a_positive_number() {
    for threads in ["", "x", "-1", "1.5", "0", "+0", "000", "99999999999999999999999999"] {
        let made = Config::new(text("src"), some("dst"), false, threads, some("r"), None);
        assert_eq!(made.err(), Some(ConfigError::Threads));
    }
    let one = Config::new(text("src"), some("dst"), false, "+1", some("r"), None).unwrap();
    assert_eq!(one.threads(), 1);
}

#[test]
fn region_falls_back_to_the_default() {
    let config = Config::new(text("src"), some("dst"), false, "16", None, some("ap-south-1"));
    assert_eq!(config.unwrap().region(), "ap-south-1");
    let given = Config::new(text("src"), some("dst"), false, "16", some("a"), some("b"));
    assert_eq!(given.unwrap().region(), "a");
}

#[test]
fn region_must_be_named() {
    let none = Config::new(text("src"), some("dst"), false, "16", None, None);
    assert_eq!(none.err(), Some(ConfigError::Region));
    let empty_default = Config::new(text("src"), some("dst"), false, "16", None, some(""));
    assert_eq!(empty_default.err(), Some(ConfigError::Region));
    let empty_given = Config::new(text("src"), some("dst"), false, "16", some(""), some("b"));
    assert_eq!(empty_given.err(), Some(ConfigError::Region));
}

#[test]
fn first_broken_rule_is_reported() {
    let all = Config::new(text("src"), None, false, "x", None, None);
    assert_eq!(all.err(), Some(ConfigError::Mode));
    let threads_and_region = Config::new(text("src"), None, true, "x", None, None);
    assert_eq!(threads_and_region.err(), Some(ConfigError::Threads));
}

#[test]
fn configuration_is_described_in_one_line() {
    let config =
        Config::new(text("src"), some("dst"), false, "16", some("us-east-1"), None).unwrap();
    assert_eq!(
        config.describe(),
        "(source:src, destination:dst, threads:16, region:us-east-1)"
    );
    let deleting = Config::new(text("q"), None, true, "3", None, some("eu-west-2")).unwrap();
    assert_eq!(deleting.describe(), "(source:q, destination:, threads:3, region:eu-west-2)");
}

#[test]
fn closing_report_is_worded() {
    let config =
        Config::new(text("src"), some("dst"), false, "16", some("us-east-1"), None).unwrap();
    assert_eq!(config.report(25), "Transferred messages count: 25 (from: src, to: dst) ");
    assert_eq!(config.report(0), "Transferred messages count: 0 (from: src, to: dst) ");
    let deleting = Config::new(text("q"), None, true, "3", None, some("eu-west-2")).unwrap();
    assert_eq!(deleting.report(7), "Transferred messages count: 7 (from: q, to: ) ");
}
