use motd::addr::is_ipv4_literal;
use motd::cliargs::{input_error_layout, parse, parse_u16, ParseOutcome};
use motd::racer::{initial_race, race_step, RaceAction, RaceEvent, RacePhase};
use motd::status::{BedrockStatus, JavaStatus};

fn java_status() -> JavaStatus {
    JavaStatus {
        game_version: "1.20.4".to_string(),
        protocol_version: 765,
        players_online: 3,
        players_maximum: 20,
        players: None,
        description: "{\"text\":\"hi\"}".to_string(),
        map: None,
        game_mode: None,
        favicon: None,
    }
}

fn bedrock_status() -> BedrockStatus {
    BedrockStatus {
        version_name: "1.20.40".to_string(),
        protocol_version: "622".to_string(),
        name: "§aA server".to_string(),
        players_online: 1,
        players_maximum: 10,
        map: None,
        game_mode: None,
        players: None,
    }
}

#[test]
fn bedrock_success_first_is_rendered_and_ends_the_race() {
    let mut st = initial_race();
    for _ in 0..2 {
        let (next, action) = race_step(st, RaceEvent::Pending);
        assert!(matches!(action, RaceAction::Wait));
        st = next;
    }
    let (st, action) = race_step(st, RaceEvent::BedrockDone(Some(bedrock_status())));
    match action {
        RaceAction::ShowBedrock(b) => assert_eq!(b.version_name, "1.20.40"),
        _ => panic!("expected the Bedrock render"),
    }
    assert_eq!(st.phase, RacePhase::Done);
    // A later Java result is never rendered.
    let (st, action) = race_step(st, RaceEvent::JavaDone(Some(java_status())));
    assert!(matches!(action, RaceAction::Wait));
    assert_eq!(st.phase, RacePhase::Done);
}

#[test]
fn bedrock_failure_falls_back_to_java() {
    let st = initial_race();
    let (st, action) = race_step(st, RaceEvent::BedrockDone(None));
    assert!(matches!(action, RaceAction::Wait));
    assert_eq!(st.phase, RacePhase::AwaitJava);
    let (st, action) = race_step(st, RaceEvent::Pending);
    assert!(matches!(action, RaceAction::Wait));
    let (st, action) = race_step(st, RaceEvent::JavaDone(Some(java_status())));
    match action {
        RaceAction::ShowJava(j) => assert_eq!(j.protocol_version, 765),
        _ => panic!("expected the Java render"),
    }
    assert_eq!(st.phase, RacePhase::Done);
}

#[test]
fn java_failure_falls_back_to_bedrock() {
    let st = initial_race();
    let (st, _) = race_step(st, RaceEvent::JavaDone(None));
    assert_eq!(st.phase, RacePhase::AwaitBedrock);
    let (st, action) = race_step(st, RaceEvent::BedrockDone(Some(bedrock_status())));
    assert!(matches!(action, RaceAction::ShowBedrock(_)));
    assert_eq!(st.phase, RacePhase::Done);
}

#[test]
fn double_failure_reports_one_failure() {
    let st = initial_race();
    let (st, _) = race_step(st, RaceEvent::BedrockDone(None));
    let (st, action) = race_step(st, RaceEvent::JavaDone(None));
    assert!(matches!(action, RaceAction::Fail));
    assert_eq!(st.phase, RacePhase::Done);
}

#[test]
fn two_hundred_polls_bring_the_advisory_warning() {
    let mut st = initial_race();
    for n in 0..=200u64 {
        let (next, action) = race_step(st, RaceEvent::Pending);
        if n < 200 {
            assert!(matches!(action, RaceAction::Wait), "poll {n}");
        } else {
            assert!(matches!(action, RaceAction::WarnTimeout));
        }
        st = next;
    }
    // The warning does not stop the wait: the race is still undecided.
    assert_eq!(st.phase, RacePhase::BothPending);
    let (_, action) = race_step(st, RaceEvent::Pending);
    assert!(matches!(action, RaceAction::WarnTimeout));
}

#[test]
fn no_arguments_ask_for_help() {
    assert!(matches!(parse(&vec![]), ParseOutcome::Help));
}

#[test]
fn one_argument_is_a_bare_host() {
    match parse(&vec!["example.com".to_string()]) {
        ParseOutcome::Query(h, p) => {
            assert_eq!(h, "example.com");
            assert_eq!(p, None);
        },
        _ => panic!("expected a query"),
    }
}

#[test]
fn one_argument_with_a_colon_splits_host_and_port() {
    match parse(&vec!["mc.example.com:25565".to_string()]) {
        ParseOutcome::Query(h, p) => {
            assert_eq!(h, "mc.example.com");
            assert_eq!(p, Some(25565));
        },
        _ => panic!("expected a query"),
    }
}

#[test]
fn everything_after_a_second_colon_is_ignored() {
    match parse(&vec!["host:1:2".to_string()]) {
        ParseOutcome::Query(h, p) => {
            assert_eq!(h, "host");
            assert_eq!(p, Some(1));
        },
        _ => panic!("expected a query"),
    }
}

#[test]
fn a_bad_port_names_its_argument() {
    assert!(matches!(
        parse(&vec!["host:notaport".to_string()]),
        ParseOutcome::BadPort { arg_position: 1 }
    ));
    assert!(matches!(
        parse(&vec!["host:".to_string()]),
        ParseOutcome::BadPort { arg_position: 1 }
    ));
    assert!(matches!(
        parse(&vec!["host".to_string(), "70000".to_string()]),
        ParseOutcome::BadPort { arg_position: 2 }
    ));
}

#[test]
fn two_arguments_are_host_and_port() {
    match parse(&vec!["host".to_string(), "123".to_string()]) {
        ParseOutcome::Query(h, p) => {
            assert_eq!(h, "host");
            assert_eq!(p, Some(123));
        },
        _ => panic!("expected a query"),
    }
}

#[test]
fn three_arguments_are_too_many() {
    let args = vec!["a".to_string(), "b".to_string(), "c".to_string()];
    assert!(matches!(parse(&args), ParseOutcome::TooManyArgs));
}

#[test]
fn port_parsing_follows_the_unsigned_grammar() {
    assert_eq!(parse_u16("0"), Some(0));
    assert_eq!(parse_u16("65535"), Some(65535));
    assert_eq!(parse_u16("65536"), None);
    assert_eq!(parse_u16("+17"), Some(17));
    assert_eq!(parse_u16("007"), Some(7));
    assert_eq!(parse_u16(""), None);
    assert_eq!(parse_u16("+"), None);
    assert_eq!(parse_u16("1a"), None);
    assert_eq!(parse_u16("-1"), None);
    assert_eq!(parse_u16("99999999999999999999"), None);
}

#[test]
fn ipv4_literals_are_recognized() {
    assert!(is_ipv4_literal("1.2.3.4"));
    assert!(is_ipv4_literal("0.0.0.0"));
    assert!(is_ipv4_literal("255.255.255.255"));
    assert!(is_ipv4_literal("127.0.0.1"));
    assert!(!is_ipv4_literal("256.1.1.1"));
    assert!(!is_ipv4_literal("01.2.3.4"));
    assert!(!is_ipv4_literal("1.2.3"));
    assert!(!is_ipv4_literal("1.2.3.4.5"));
    assert!(!is_ipv4_literal("a.b.c.d"));
    assert!(!is_ipv4_literal("1..2.3"));
    assert!(!is_ipv4_literal("example.com"));
    assert!(!is_ipv4_literal(""));
}

#[test]
fn caret_layout_counts_widths_and_separators() {
    let args = vec!["host".to_string(), "badport".to_string()];
    let (indent, caret) = input_error_layout("motd", &args, 2);
    // Arrow and space, the program name and a space, then the first
    // argument and a space.
    assert_eq!(indent, 2 + 4 + 1 + 4 + 1);
    assert_eq!(caret, 7);
    let (indent, caret) = input_error_layout("motd", &args, 1);
    assert_eq!(indent, 2 + 4 + 1);
    assert_eq!(caret, 4);
}
