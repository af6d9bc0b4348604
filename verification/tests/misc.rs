use pocket_feeder::config::{Config, PocketConfiguration, SentryConfiguration, SentrySetup};
use pocket_feeder::text::{contains_string, decimal_text, join, trim};

fn config(sentry: Option<SentryConfiguration>) -> Config {
    Config {
        pocket: PocketConfiguration { consumer: "some token".to_string() },
        sentry,
        sources: vec![],
    }
}

#[test]
fn sentry_starts_only_with_a_non_empty_dsn() {
    let c = config(Some(SentryConfiguration { dsn: Some("some dsn".to_string()) }));
    assert!(matches!(c.sentry_setup(), SentrySetup::Start { dsn } if dsn == "some dsn"));
    let c = config(Some(SentryConfiguration { dsn: Some(String::new()) }));
    assert!(matches!(c.sentry_setup(), SentrySetup::EmptyDsn));
    let c = config(Some(SentryConfiguration { dsn: None }));
    assert!(matches!(c.sentry_setup(), SentrySetup::DsnNotSet));
    let c = config(None);
    assert!(matches!(c.sentry_setup(), SentrySetup::NotConfigured));
}

#[test]
fn text_helpers() {
    assert_eq!(decimal_text(0), "0");
    assert_eq!(decimal_text(9), "9");
    assert_eq!(decimal_text(10), "10");
    assert_eq!(decimal_text(18446744073709551615), "18446744073709551615");
    assert_eq!(join(&vec![], ","), "");
    assert_eq!(join(&vec!["a".to_string()], ", "), "a");
    assert_eq!(join(&vec!["a".to_string(), "".to_string(), "c".to_string()], ","), "a,,c");
    assert_eq!(trim("  x y  "), "x y");
    let list = vec!["a".to_string(), "b".to_string()];
    assert!(contains_string(&list, &"b".to_string()));
    assert!(!contains_string(&list, &"B".to_string()));
}
