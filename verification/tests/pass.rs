use porkbun_ddns::command::Key;
use porkbun_ddns::config::{Config, Domain};
use porkbun_ddns::engine::{Action, Engine, Step};
use porkbun_ddns::model::Phase;
use porkbun_ddns::notice::{lines, Notice, Report};
use porkbun_ddns::response::{Edit, ErrorRes, Ping, Record, Records};
use porkbun_ddns::wire::{Reply, Request};

const OBSERVED: &str = "203.0.113.7";

/// A stand-in for the registrar: it answers from what it holds, applies
/// the edits it accepts, and keeps the address of every request.
struct Registrar {
    ping: Reply,
    zones: Vec<(String, Result<Vec<Record>, String>)>,
    refused: Vec<(String, Reply)>,
    asked: Vec<String>,
    edits: Vec<(String, String, String, String)>,
}

impl Registrar {
    fn new(zones: Vec<(String, Result<Vec<Record>, String>)>) -> Registrar {
        Registrar {
            ping: Reply::Ping(Ping::Success { your_ip: OBSERVED.to_string() }),
            zones,
            refused: Vec::new(),
            asked: Vec::new(),
            edits: Vec::new(),
        }
    }

    fn answer(&mut self, request: &Request) -> Reply {
        self.asked.push(request.url());
        match request {
            Request::Ping { .. } => copy_reply(&self.ping),
            Request::Retrieve { apex, .. } => {
                for (name, zone) in &self.zones {
                    if name == apex {
                        return match zone {
                            Ok(records) => Reply::Records(Records::Success {
                                records: records.iter().map(|r| r.clone()).collect(),
                            }),
                            Err(message) => Reply::Records(Records::Error(ErrorRes {
                                message: message.clone(),
                            })),
                        };
                    }
                }
                Reply::Failed
            }
            Request::Edit { apex, id, body } => {
                self.edits.push((
                    apex.clone(),
                    id.clone(),
                    body.content.clone(),
                    body.ttl.clone(),
                ));
                for (which, reply) in &self.refused {
                    if which == id {
                        return copy_reply(reply);
                    }
                }
                for (name, zone) in &mut self.zones {
                    if name == apex {
                        if let Ok(records) = zone {
                            for record in records.iter_mut() {
                                if &record.id == id {
                                    record.content = body.content.clone();
                                    record.ttl = Some(body.ttl.clone());
                                }
                            }
                        }
                    }
                }
                Reply::Edit(Edit::Success)
            }
        }
    }
}

fn copy_reply(reply: &Reply) -> Reply {
    match reply {
        Reply::Ping(Ping::Success { your_ip }) => {
            Reply::Ping(Ping::Success { your_ip: your_ip.clone() })
        }
        Reply::Ping(Ping::Error(e)) => {
            Reply::Ping(Ping::Error(ErrorRes { message: e.message.clone() }))
        }
        Reply::Edit(Edit::Success) => Reply::Edit(Edit::Success),
        Reply::Edit(Edit::Error(e)) => {
            Reply::Edit(Edit::Error(ErrorRes { message: e.message.clone() }))
        }
        _ => Reply::Failed,
    }
}

/// Runs a whole pass against the stand-in, as the program does against the
/// registrar, and gives back everything that was said and how it ended.
fn pass(config: Config, registrar: &mut Registrar) -> (Vec<Notice>, Action) {
    let (mut engine, mut step) = Engine::start(config);
    let mut said = Vec::new();
    for _ in 0..1000 {
        let Step { notices, action } = step;
        said.extend(notices);
        match action {
            Action::Send(request) => {
                let reply = registrar.answer(&request);
                let next = engine.step(reply);
                engine = next.0;
                step = next.1;
            }
            ended => return (said, ended),
        }
    }
    panic!("the pass did not end");
}

fn record(id: &str, name: &str, rec_type: &str, content: &str, ttl: Option<&str>) -> Record {
    Record {
        id: id.to_string(),
        name: name.to_string(),
        rec_type: rec_type.to_string(),
        content: content.to_string(),
        ttl: ttl.map(|t| t.to_string()),
        prio: None,
        notes: None,
    }
}

fn domain(name: &str, update_tld: bool, subdomains: &[&str]) -> Domain {
    Domain {
        name: name.to_string(),
        update_tld,
        subdomains: subdomains.iter().map(|s| s.to_string()).collect(),
    }
}

fn config(domains: Vec<Domain>) -> Config {
    Config { apikey: "pk1_key".to_string(), secretapikey: "sk1_secret".to_string(), domains }
}

fn example_zone() -> Vec<Record> {
    vec![
        record("1", "example.com", "A", "198.51.100.2", Some("300")),
        record("2", "www.example.com", "A", "203.0.113.7", Some("600")),
        record("3", "mx.example.com", "MX", "...", Some("600")),
    ]
}

fn summary(apex: &str, changed: usize, skipped: usize, errored: usize) -> Notice {
    Notice::Summary { apex: apex.to_string(), report: Report { changed, skipped, errored } }
}

#[test]
fn start_asks_for_the_ping_with_the_credentials() {
    let (engine, step) = Engine::start(config(vec![domain("example.com", true, &[])]));
    assert_eq!(engine.phase(), Phase::AwaitPing);
    assert_eq!(step.notices, Vec::<Notice>::new());
    assert_eq!(
        step.action,
        Action::Send(Request::Ping {
            body: Key { apikey: "pk1_key".to_string(), secretapikey: "sk1_secret".to_string() }
        })
    );
}

#[test]
fn mixed_outcomes_in_one_domain() {
    let mut registrar = Registrar::new(vec![("example.com".to_string(), Ok(example_zone()))]);
    let (said, ended) =
        pass(config(vec![domain("example.com", true, &["www", "mail"])]), &mut registrar);
    assert_eq!(ended, Action::Finish);
    assert_eq!(
        said,
        vec![
            Notice::DomainStarted { apex: "example.com".to_string() },
            Notice::Updated { name: "example.com".to_string() },
            Notice::Skipped { name: "www.example.com".to_string() },
            Notice::Missing { name: "mail.example.com".to_string() },
            summary("example.com", 1, 1, 1),
        ]
    );
    assert_eq!(
        registrar.edits,
        vec![(
            "example.com".to_string(),
            "1".to_string(),
            "203.0.113.7".to_string(),
            "300".to_string()
        )]
    );
    assert_eq!(
        registrar.asked,
        vec![
            "https://porkbun.com/api/json/v3/ping".to_string(),
            "https://porkbun.com/api/json/v3/dns/retrieve/example.com".to_string(),
            "https://porkbun.com/api/json/v3/dns/edit/example.com/1".to_string(),
        ]
    );
    assert_eq!(
        lines(&said, false),
        vec!["Updated domain records for \"example.com\": 1 Changed, 1 Skipped, 1 Errored"
            .to_string()]
    );
    assert_eq!(
        lines(&said, true),
        vec![
            "Now updating domain: \"example.com\"".to_string(),
            "Record \"example.com\" successfully updated".to_string(),
            "Record \"www.example.com\" skipped".to_string(),
            "Record \"mail.example.com\" does not exist".to_string(),
            "Updated domain records for \"example.com\": 1 Changed, 1 Skipped, 1 Errored"
                .to_string(),
        ]
    );
}

#[test]
fn apex_disabled_leaves_the_apex_alone() {
    let mut registrar = Registrar::new(vec![("example.com".to_string(), Ok(example_zone()))]);
    let (said, ended) = pass(config(vec![domain("example.com", false, &["www"])]), &mut registrar);
    assert_eq!(ended, Action::Finish);
    assert_eq!(
        said,
        vec![
            Notice::DomainStarted { apex: "example.com".to_string() },
            Notice::Skipped { name: "www.example.com".to_string() },
            summary("example.com", 0, 1, 0),
        ]
    );
    assert!(registrar.edits.is_empty());
    assert_eq!(
        lines(&said, false),
        vec!["Updated domain records for \"example.com\": 0 Changed, 1 Skipped, 0 Errored"
            .to_string()]
    );
}

#[test]
fn retrieve_failure_isolates_the_domain() {
    let mut registrar = Registrar::new(vec![
        ("a.com".to_string(), Ok(vec![record("7", "a.com", "A", OBSERVED, Some("600"))])),
        ("b.com".to_string(), Err("Invalid domain".to_string())),
    ]);
    let (said, ended) = pass(
        config(vec![domain("a.com", true, &[]), domain("b.com", true, &["www"])]),
        &mut registrar,
    );
    assert_eq!(ended, Action::Finish);
    assert_eq!(
        lines(&said, false),
        vec![
            "Updated domain records for \"a.com\": 0 Changed, 1 Skipped, 0 Errored".to_string(),
            "Failed to update domain \"b.com\": Invalid domain".to_string(),
        ]
    );
    assert!(registrar.edits.is_empty());
}

#[test]
fn failed_domain_does_not_stop_the_next() {
    let mut registrar = Registrar::new(vec![
        ("b.com".to_string(), Err("Invalid domain".to_string())),
        ("a.com".to_string(), Ok(vec![record("7", "a.com", "A", "192.0.2.1", Some("600"))])),
    ]);
    let (said, ended) = pass(
        config(vec![domain("b.com", true, &[]), domain("a.com", true, &[])]),
        &mut registrar,
    );
    assert_eq!(ended, Action::Finish);
    assert_eq!(
        said,
        vec![
            Notice::DomainStarted { apex: "b.com".to_string() },
            Notice::DomainFailed {
                apex: "b.com".to_string(),
                message: "Invalid domain".to_string()
            },
            Notice::DomainStarted { apex: "a.com".to_string() },
            Notice::Updated { name: "a.com".to_string() },
            summary("a.com", 1, 0, 0),
        ]
    );
}

#[test]
fn missing_ttl_is_sent_as_the_default() {
    let mut registrar = Registrar::new(vec![(
        "example.com".to_string(),
        Ok(vec![record("9", "home.example.com", "A", "192.0.2.1", None)]),
    )]);
    let (said, _) = pass(config(vec![domain("example.com", false, &["home"])]), &mut registrar);
    assert_eq!(
        registrar.edits,
        vec![(
            "example.com".to_string(),
            "9".to_string(),
            "203.0.113.7".to_string(),
            "600".to_string()
        )]
    );
    assert_eq!(said[2], summary("example.com", 1, 0, 0));
}

#[test]
fn ping_failure_is_fatal() {
    let mut registrar = Registrar::new(vec![("example.com".to_string(), Ok(example_zone()))]);
    registrar.ping = Reply::Ping(Ping::Error(ErrorRes { message: "Invalid API key.".to_string() }));
    let (said, ended) = pass(config(vec![domain("example.com", true, &["www"])]), &mut registrar);
    assert_eq!(ended, Action::Abort { message: "Invalid API key.".to_string() });
    assert!(said.is_empty());
    assert_eq!(registrar.asked, vec!["https://porkbun.com/api/json/v3/ping".to_string()]);
}

#[test]
fn ping_without_an_answer_is_fatal() {
    let mut registrar = Registrar::new(vec![]);
    registrar.ping = Reply::Failed;
    let (said, ended) = pass(config(vec![domain("example.com", true, &[])]), &mut registrar);
    assert_eq!(ended, Action::Abort { message: "transport error".to_string() });
    assert!(said.is_empty());
    assert_eq!(registrar.asked.len(), 1);
}

#[test]
fn aborted_pass_stays_aborted() {
    let (engine, _) = Engine::start(config(vec![domain("example.com", true, &[])]));
    let (engine, step) =
        engine.step(Reply::Ping(Ping::Error(ErrorRes { message: "no".to_string() })));
    assert_eq!(engine.phase(), Phase::Aborted);
    assert_eq!(step.action, Action::Abort { message: "no".to_string() });
    let (engine, step) = engine.step(Reply::Edit(Edit::Success));
    assert_eq!(engine.phase(), Phase::Aborted);
    assert_eq!(step.notices, Vec::<Notice>::new());
    assert_eq!(step.action, Action::Abort { message: "no".to_string() });
}

#[test]
fn finished_pass_stays_finished() {
    let (engine, _) = Engine::start(config(vec![]));
    let (engine, step) = engine.step(Reply::Ping(Ping::Success { your_ip: OBSERVED.to_string() }));
    assert_eq!(engine.phase(), Phase::Finished);
    assert_eq!(step.action, Action::Finish);
    assert_eq!(step.notices, Vec::<Notice>::new());
    let (engine, step) = engine.step(Reply::Failed);
    assert_eq!(engine.phase(), Phase::Finished);
    assert_eq!(step.action, Action::Finish);
}

#[test]
fn retrieve_without_an_answer_fails_the_domain_only() {
    let mut registrar = Registrar::new(vec![(
        "a.com".to_string(),
        Ok(vec![record("7", "a.com", "A", OBSERVED, None)]),
    )]);
    let (said, ended) = pass(
        config(vec![domain("gone.com", true, &[]), domain("a.com", true, &[])]),
        &mut registrar,
    );
    assert_eq!(ended, Action::Finish);
    assert_eq!(
        lines(&said, false),
        vec![
            "Failed to update domain \"gone.com\": transport error".to_string(),
            "Updated domain records for \"a.com\": 0 Changed, 1 Skipped, 0 Errored".to_string(),
        ]
    );
}

#[test]
fn refused_edit_counts_as_error_and_the_pass_goes_on() {
    let mut registrar = Registrar::new(vec![(
        "example.com".to_string(),
        Ok(vec![
            record("1", "example.com", "A", "192.0.2.1", Some("300")),
            record("2", "www.example.com", "A", "192.0.2.1", Some("300")),
            record("3", "vpn.example.com", "A", "192.0.2.1", None),
        ]),
    )]);
    registrar.refused = vec![
        (
            "1".to_string(),
            Reply::Edit(Edit::Error(ErrorRes { message: "Edit error".to_string() })),
        ),
        ("2".to_string(), Reply::Failed),
    ];
    let (said, ended) =
        pass(config(vec![domain("example.com", true, &["www", "vpn"])]), &mut registrar);
    assert_eq!(ended, Action::Finish);
    assert_eq!(
        lines(&said, true),
        vec![
            "Now updating domain: \"example.com\"".to_string(),
            "Record \"example.com\" failed to update: Edit error".to_string(),
            "Record \"www.example.com\" failed to update: transport error".to_string(),
            "Record \"vpn.example.com\" successfully updated".to_string(),
            "Updated domain records for \"example.com\": 1 Changed, 0 Skipped, 2 Errored"
                .to_string(),
        ]
    );
    assert_eq!(registrar.edits.len(), 3);
    assert_eq!(registrar.edits[2].3, "600".to_string());
}

#[test]
fn second_pass_after_applied_edits_changes_nothing() {
    let names = ["www", "vpn"];
    let mut registrar = Registrar::new(vec![(
        "example.com".to_string(),
        Ok(vec![
            record("1", "example.com", "A", "192.0.2.1", Some("300")),
            record("2", "www.example.com", "A", "192.0.2.9", None),
            record("3", "vpn.example.com", "A", OBSERVED, Some("900")),
        ]),
    )]);
    let (first, _) = pass(config(vec![domain("example.com", true, &names)]), &mut registrar);
    assert_eq!(first[4], summary("example.com", 2, 1, 0));
    let edits = registrar.edits.len();
    let (second, ended) = pass(config(vec![domain("example.com", true, &names)]), &mut registrar);
    assert_eq!(ended, Action::Finish);
    assert_eq!(second[4], summary("example.com", 0, 3, 0));
    assert_eq!(registrar.edits.len(), edits);
}

#[test]
fn only_the_first_record_of_a_name_is_touched() {
    let mut registrar = Registrar::new(vec![(
        "example.com".to_string(),
        Ok(vec![
            record("10", "www.example.com", "A", "192.0.2.1", Some("300")),
            record("11", "www.example.com", "A", "192.0.2.2", Some("300")),
        ]),
    )]);
    let (said, _) = pass(config(vec![domain("example.com", false, &["www"])]), &mut registrar);
    assert_eq!(said[2], summary("example.com", 1, 0, 0));
    assert_eq!(registrar.edits.len(), 1);
    assert_eq!(registrar.edits[0].1, "10".to_string());
}

#[test]
fn records_of_other_types_and_zones_are_not_matched() {
    let mut registrar = Registrar::new(vec![(
        "example.com".to_string(),
        Ok(vec![
            record("1", "example.com", "AAAA", "2001:db8::1", Some("300")),
            record("2", "example.com", "a", "192.0.2.1", Some("300")),
            record("3", "www.evilexample.com", "A", "192.0.2.1", Some("300")),
        ]),
    )]);
    let (said, _) = pass(config(vec![domain("example.com", true, &["www"])]), &mut registrar);
    assert_eq!(
        said,
        vec![
            Notice::DomainStarted { apex: "example.com".to_string() },
            Notice::Missing { name: "example.com".to_string() },
            Notice::Missing { name: "www.example.com".to_string() },
            summary("example.com", 0, 0, 2),
        ]
    );
    assert!(registrar.edits.is_empty());
}

#[test]
fn domain_without_names_is_summed_up_empty() {
    let mut registrar = Registrar::new(vec![("example.com".to_string(), Ok(example_zone()))]);
    let (said, ended) = pass(config(vec![domain("example.com", false, &[])]), &mut registrar);
    assert_eq!(ended, Action::Finish);
    assert_eq!(
        lines(&said, false),
        vec!["Updated domain records for \"example.com\": 0 Changed, 0 Skipped, 0 Errored"
            .to_string()]
    );
}

#[test]
fn counts_add_up_to_the_number_of_names() {
    let labels: Vec<String> = (0..25).map(|i| format!("h{}", i)).collect();
    let borrowed: Vec<&str> = labels.iter().map(|s| s.as_str()).collect();
    let mut zone = Vec::new();
    for i in 0..25 {
        if i % 3 != 0 {
            let content = if i % 2 == 0 { OBSERVED } else { "192.0.2.1" };
            zone.push(record(
                &format!("{}", 100 + i),
                &format!("h{}.example.com", i),
                "A",
                content,
                None,
            ));
        }
    }
    let mut registrar = Registrar::new(vec![("example.com".to_string(), Ok(zone))]);
    let (said, _) = pass(config(vec![domain("example.com", true, &borrowed)]), &mut registrar);
    match said.last() {
        Some(Notice::Summary { report, .. }) => {
            assert_eq!(report.changed + report.skipped + report.errored, 26);
            assert_eq!(report.changed, 8);
            assert_eq!(report.skipped, 8);
            assert_eq!(report.errored, 10);
        }
        other => panic!("no summary: {:?}", other),
    }
    assert_eq!(registrar.edits.len(), 8);
    assert_eq!(
        lines(&said, false),
        vec!["Updated domain records for \"example.com\": 8 Changed, 8 Skipped, 10 Errored"
            .to_string()]
    );
}

#[test]
fn every_edit_carries_the_observed_address() {
    let mut registrar = Registrar::new(vec![(
        "example.com".to_string(),
        Ok(vec![
            record("1", "a.example.com", "A", "192.0.2.1", Some("120")),
            record("2", "b.example.com", "A", "192.0.2.2", None),
            record("3", "c.example.com", "A", OBSERVED, Some("60")),
        ]),
    )]);
    pass(config(vec![domain("example.com", false, &["a", "b", "c"])]), &mut registrar);
    assert_eq!(
        registrar.edits,
        vec![
            ("example.com".to_string(), "1".to_string(), OBSERVED.to_string(), "120".to_string()),
            ("example.com".to_string(), "2".to_string(), OBSERVED.to_string(), "600".to_string()),
        ]
    );
}

#[test]
fn names_are_worked_apex_first_then_as_configured() {
    let mut registrar = Registrar::new(vec![("example.com".to_string(), Ok(vec![]))]);
    let (said, _) =
        pass(config(vec![domain("example.com", true, &["zeta", "alpha", "mid"])]), &mut registrar);
    assert_eq!(
        said[1..5].to_vec(),
        vec![
            Notice::Missing { name: "example.com".to_string() },
            Notice::Missing { name: "zeta.example.com".to_string() },
            Notice::Missing { name: "alpha.example.com".to_string() },
            Notice::Missing { name: "mid.example.com".to_string() },
        ]
    );
}

#[test]
fn reply_of_another_kind_counts_as_failed_exchange() {
    let (engine, _) = Engine::start(config(vec![domain("example.com", true, &[])]));
    let (engine, step) = engine.step(Reply::Ping(Ping::Success { your_ip: OBSERVED.to_string() }));
    assert_eq!(engine.phase(), Phase::AwaitRecords);
    assert_eq!(step.notices, vec![Notice::DomainStarted { apex: "example.com".to_string() }]);
    let (engine, step) = engine.step(Reply::Edit(Edit::Success));
    assert_eq!(engine.phase(), Phase::Finished);
    assert_eq!(
        step.notices,
        vec![Notice::DomainFailed {
            apex: "example.com".to_string(),
            message: "transport error".to_string()
        }]
    );
}

#[test]
fn edits_equal_names_with_a_record_when_none_is_current() {
    let mut registrar = Registrar::new(vec![(
        "example.com".to_string(),
        Ok(vec![
            record("1", "example.com", "A", "192.0.2.1", Some("300")),
            record("2", "www.example.com", "A", "192.0.2.2", None),
            record("3", "ftp.example.com", "A", "192.0.2.3", Some("60")),
            record("4", "unused.example.com", "A", "192.0.2.4", None),
        ]),
    )]);
    let (said, _) = pass(
        config(vec![domain("example.com", true, &["www", "mail", "ftp", "cloud"])]),
        &mut registrar,
    );
    assert_eq!(registrar.edits.len(), 3);
    let ids: Vec<&str> = registrar.edits.iter().map(|e| e.1.as_str()).collect();
    assert_eq!(ids, vec!["1", "2", "3"]);
    assert_eq!(said.last(), Some(&summary("example.com", 3, 0, 2)));
}

#[test]
fn each_domain_is_closed_exactly_once() {
    let mut registrar = Registrar::new(vec![
        ("a.com".to_string(), Ok(vec![record("1", "a.com", "A", "192.0.2.1", None)])),
        ("b.com".to_string(), Err("Invalid domain".to_string())),
        ("c.com".to_string(), Ok(vec![])),
        ("e.com".to_string(), Ok(vec![record("5", "x.e.com", "A", OBSERVED, None)])),
    ]);
    let (said, ended) = pass(
        config(vec![
            domain("a.com", true, &["www"]),
            domain("b.com", true, &[]),
            domain("c.com", false, &[]),
            domain("d.com", true, &["www"]),
            domain("e.com", false, &["x", "y"]),
        ]),
        &mut registrar,
    );
    assert_eq!(ended, Action::Finish);
    let closing: Vec<Notice> = said.iter().filter(|n| n.closes()).cloned().collect();
    assert_eq!(
        closing,
        vec![
            summary("a.com", 1, 0, 1),
            Notice::DomainFailed { apex: "b.com".to_string(), message: "Invalid domain".to_string() },
            summary("c.com", 0, 0, 0),
            Notice::DomainFailed {
                apex: "d.com".to_string(),
                message: "transport error".to_string()
            },
            summary("e.com", 0, 1, 1),
        ]
    );
    let started = said.iter().filter(|n| matches!(n, Notice::DomainStarted { .. })).count();
    assert_eq!(started, 5);
}

#[test]
fn summary_counts_the_outcomes_that_were_reported() {
    let mut registrar = Registrar::new(vec![(
        "example.com".to_string(),
        Ok(vec![
            record("1", "a.example.com", "A", "192.0.2.1", None),
            record("2", "b.example.com", "A", OBSERVED, None),
            record("3", "c.example.com", "A", "192.0.2.3", None),
        ]),
    )]);
    registrar.refused = vec![("3".to_string(), Reply::Failed)];
    let (said, _) =
        pass(config(vec![domain("example.com", true, &["a", "b", "c"])]), &mut registrar);
    let mut counted = Report::new();
    for notice in &said {
        if let Some(status) = notice.status() {
            counted = counted.count(status);
        }
    }
    assert_eq!(counted, Report { changed: 1, skipped: 1, errored: 2 });
    assert_eq!(said.last(), Some(&Notice::Summary { apex: "example.com".to_string(), report: counted }));
}

#[test]
fn pass_takes_no_more_answers_than_ping_domains_and_names() {
    let mut registrar = Registrar::new(vec![
        (
            "a.com".to_string(),
            Ok(vec![
                record("1", "a.com", "A", "192.0.2.1", None),
                record("2", "x.a.com", "A", "192.0.2.1", None),
                record("3", "y.a.com", "A", "192.0.2.1", None),
            ]),
        ),
        ("b.com".to_string(), Ok(vec![record("4", "www.b.com", "A", "192.0.2.1", None)])),
    ]);
    let (_, ended) = pass(
        config(vec![domain("a.com", true, &["x", "y"]), domain("b.com", false, &["www"])]),
        &mut registrar,
    );
    assert_eq!(ended, Action::Finish);
    assert_eq!(registrar.asked.len(), 1 + (1 + 3) + (1 + 1));
}
