use porkbun_ddns::config::{Config, Domain, Loading, FILE_NAME, NOT_CONFIGURED, TEMPLATE};
use porkbun_ddns::reconcile::{
    decide_target, filter_records, find_record, is_in_zone, is_relevant, update_record, Decision,
    A_TYPE, DEFAULT_TTL,
};
use porkbun_ddns::response::Record;

fn record(id: &str, name: &str, rec_type: &str, content: &str, ttl: Option<&str>) -> Record {
    Record {
        id: id.to_string(),
        name: name.to_string(),
        rec_type: rec_type.to_string(),
        content: content.to_string(),
        ttl: ttl.map(|t| t.to_string()),
        prio: Some("0".to_string()),
        notes: None,
    }
}

fn domain(name: &str, update_tld: bool, subdomains: &[&str]) -> Domain {
    Domain {
        name: name.to_string(),
        update_tld,
        subdomains: subdomains.iter().map(|s| s.to_string()).collect(),
    }
}

#[test]
fn apex_is_in_its_own_zone() {
    assert!(is_in_zone("example.com", "example.com"));
}

#[test]
fn names_under_the_apex_are_in_the_zone() {
    assert!(is_in_zone("www.example.com", "example.com"));
    assert!(is_in_zone("a.b.example.com", "example.com"));
    assert!(is_in_zone(".example.com", "example.com"));
}

#[test]
fn name_that_only_ends_like_the_apex_is_outside() {
    assert!(!is_in_zone("evilexample.com", "example.com"));
    assert!(!is_in_zone("example.com.evil", "example.com"));
    assert!(!is_in_zone("xample.com", "example.com"));
    assert!(!is_in_zone("", "example.com"));
    assert!(!is_in_zone("com", "example.com"));
}

#[test]
fn zone_test_is_case_sensitive() {
    assert!(!is_in_zone("Example.com", "example.com"));
    assert!(!is_in_zone("www.EXAMPLE.com", "example.com"));
}

#[test]
fn zone_test_compares_whole_characters() {
    assert!(is_in_zone("b\u{fc}cher.m\u{fc}nchen.de", "m\u{fc}nchen.de"));
    assert!(!is_in_zone("www.munchen.de", "m\u{fc}nchen.de"));
}

#[test]
fn only_address_records_of_the_zone_are_relevant() {
    assert!(is_relevant(&record("1", "example.com", "A", "x", None), "example.com"));
    assert!(is_relevant(&record("1", "www.example.com", "A", "x", None), "example.com"));
    assert!(!is_relevant(&record("1", "example.com", "AAAA", "x", None), "example.com"));
    assert!(!is_relevant(&record("1", "example.com", "a", "x", None), "example.com"));
    assert!(!is_relevant(&record("1", "example.com", "", "x", None), "example.com"));
    assert!(!is_relevant(&record("1", "mx.example.com", "MX", "x", None), "example.com"));
    assert!(!is_relevant(&record("1", "evilexample.com", "A", "x", None), "example.com"));
}

#[test]
fn record_type_and_default_ttl_are_the_documented_ones() {
    assert_eq!(A_TYPE, "A");
    assert_eq!(DEFAULT_TTL, "600");
}

#[test]
fn filter_keeps_relevant_records_in_order() {
    let records = vec![
        record("1", "example.com", "A", "198.51.100.2", Some("300")),
        record("2", "txt.example.com", "TXT", "v=spf1", None),
        record("3", "www.example.com", "A", "203.0.113.7", Some("600")),
        record("4", "evilexample.com", "A", "203.0.113.7", None),
        record("5", "mx.example.com", "MX", "...", Some("600")),
        record("6", "a.example.com", "A", "203.0.113.9", None),
    ];
    let kept = filter_records(&records, "example.com");
    assert_eq!(
        kept,
        vec![
            record("1", "example.com", "A", "198.51.100.2", Some("300")),
            record("3", "www.example.com", "A", "203.0.113.7", Some("600")),
            record("6", "a.example.com", "A", "203.0.113.9", None),
        ]
    );
    assert_eq!(records.len(), 6);
}

#[test]
fn filter_of_nothing_is_nothing() {
    assert_eq!(filter_records(&Vec::new(), "example.com"), Vec::<Record>::new());
}

#[test]
fn record_copy_keeps_every_field() {
    let first = Record {
        id: "42".to_string(),
        name: "www.example.com".to_string(),
        rec_type: "A".to_string(),
        content: "203.0.113.7".to_string(),
        ttl: Some("300".to_string()),
        prio: Some("10".to_string()),
        notes: Some("home".to_string()),
    };
    let copy = first.clone();
    assert_eq!(copy, first);
    assert_eq!(copy.notes, Some("home".to_string()));
    assert_eq!(copy.prio, Some("10".to_string()));
}

#[test]
fn find_gives_the_first_record_of_the_name() {
    let list = vec![
        record("1", "example.com", "A", "x", None),
        record("2", "www.example.com", "A", "first", None),
        record("3", "www.example.com", "A", "second", None),
    ];
    assert_eq!(find_record(&list, "www.example.com").map(|r| r.id.as_str()), Some("2"));
    assert_eq!(find_record(&list, "example.com").map(|r| r.id.as_str()), Some("1"));
    assert_eq!(find_record(&list, "mail.example.com"), None);
    assert_eq!(find_record(&list, "WWW.example.com"), None);
    assert_eq!(find_record(&Vec::new(), "example.com"), None);
}

#[test]
fn record_with_the_observed_address_is_skipped() {
    let r = record("1", "example.com", "A", "203.0.113.7", Some("300"));
    assert_eq!(update_record(&r, "203.0.113.7"), Decision::Skip);
}

#[test]
fn stale_record_is_edited_with_its_own_ttl() {
    let r = record("1", "example.com", "A", "198.51.100.2", Some("300"));
    assert_eq!(
        update_record(&r, "203.0.113.7"),
        Decision::Edit {
            id: "1".to_string(),
            content: "203.0.113.7".to_string(),
            ttl: "300".to_string()
        }
    );
}

#[test]
fn stale_record_without_ttl_is_edited_with_the_default() {
    let r = record("8", "example.com", "A", "198.51.100.2", None);
    assert_eq!(
        update_record(&r, "203.0.113.7"),
        Decision::Edit {
            id: "8".to_string(),
            content: "203.0.113.7".to_string(),
            ttl: "600".to_string()
        }
    );
}

#[test]
fn content_is_compared_as_text() {
    let r = record("1", "example.com", "A", "203.0.113.07", Some("300"));
    assert!(matches!(update_record(&r, "203.0.113.7"), Decision::Edit { .. }));
}

#[test]
fn decision_for_each_kind_of_name() {
    let list = vec![
        record("1", "example.com", "A", "198.51.100.2", Some("300")),
        record("2", "www.example.com", "A", "203.0.113.7", Some("600")),
    ];
    assert_eq!(
        decide_target(&list, "example.com", "203.0.113.7"),
        Decision::Edit {
            id: "1".to_string(),
            content: "203.0.113.7".to_string(),
            ttl: "300".to_string()
        }
    );
    assert_eq!(decide_target(&list, "www.example.com", "203.0.113.7"), Decision::Skip);
    assert_eq!(decide_target(&list, "mail.example.com", "203.0.113.7"), Decision::Missing);
}

#[test]
fn targets_are_apex_first_then_subdomains_in_order() {
    assert_eq!(
        domain("example.com", true, &["www", "mail"]).targets(),
        vec![
            "example.com".to_string(),
            "www.example.com".to_string(),
            "mail.example.com".to_string()
        ]
    );
}

#[test]
fn targets_without_the_apex() {
    assert_eq!(
        domain("example.com", false, &["b", "a"]).targets(),
        vec!["b.example.com".to_string(), "a.example.com".to_string()]
    );
    assert_eq!(domain("example.com", false, &[]).targets(), Vec::<String>::new());
    assert_eq!(domain("example.com", true, &[]).targets(), vec!["example.com".to_string()]);
}

#[test]
fn repeated_labels_give_repeated_targets() {
    assert_eq!(
        domain("example.com", false, &["www", "www"]).targets(),
        vec!["www.example.com".to_string(), "www.example.com".to_string()]
    );
}

#[test]
fn qualified_name_joins_label_and_apex_with_a_dot() {
    assert_eq!(domain("example.com", false, &[]).qualified("www"), "www.example.com".to_string());
    assert_eq!(domain("example.com", false, &[]).qualified(""), ".example.com".to_string());
}

#[test]
fn config_file_lies_in_the_folder() {
    assert_eq!(FILE_NAME, "config.toml");
    assert_eq!(Config::path("data/"), "data/config.toml".to_string());
    assert_eq!(Config::path("/etc/ddns/"), "/etc/ddns/config.toml".to_string());
    assert_eq!(Config::path("data"), "data/config.toml".to_string());
    assert_eq!(Config::path("/etc/ddns"), "/etc/ddns/config.toml".to_string());
    assert_eq!(Config::path("/"), "/config.toml".to_string());
    assert_eq!(Config::path(""), "/config.toml".to_string());
}

#[test]
fn folder_that_cannot_be_opened_is_reported_by_its_path() {
    assert_eq!(
        Config::assess("nowhere/", None),
        Loading::Unreadable {
            message: "Error opening folder nowhere/. Either the location does not exist or has permissions issues."
                .to_string()
        }
    );
}

#[test]
fn folder_that_cannot_be_opened_is_named_with_its_separator() {
    assert_eq!(Config::assess("nowhere", None), Config::assess("nowhere/", None));
    assert_eq!(
        Config::assess("/srv/ddns", None),
        Loading::Unreadable {
            message: "Error opening folder /srv/ddns/. Either the location does not exist or has permissions issues."
                .to_string()
        }
    );
}

#[test]
fn empty_file_gets_the_template() {
    assert_eq!(
        Config::assess("data/", Some("")),
        Loading::Blank {
            template: "apikey = \"\"\nsecretapikey = \"\"\n\n[[domains]]\nname = \"example.com\"\nupdate_tld = false\nsubdomains = []"
                .to_string(),
            message: "Config file does not exist. Please fill out generated config file before running again."
                .to_string()
        }
    );
    assert_eq!(
        TEMPLATE,
        "apikey = \"\"\nsecretapikey = \"\"\n\n[[domains]]\nname = \"example.com\"\nupdate_tld = false\nsubdomains = []"
    );
    assert_eq!(
        NOT_CONFIGURED,
        "Config file does not exist. Please fill out generated config file before running again."
    );
}

#[test]
fn file_with_text_is_to_be_parsed() {
    assert_eq!(Config::assess("data/", Some("apikey = \"k\"")), Loading::Filled);
    assert_eq!(Config::assess("data/", Some(" ")), Loading::Filled);
    assert_eq!(Config::assess("data/", Some("\n")), Loading::Filled);
}

#[test]
fn config_file_is_never_looked_for_beside_the_folder() {
    assert_ne!(Config::path("data"), "dataconfig.toml".to_string());
    assert_eq!(Config::path("data"), Config::path("data/"));
}
