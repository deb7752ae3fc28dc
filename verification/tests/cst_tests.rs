use endb_lib::cst::{endb_parse_sql_cst, is_balanced, replay, CstCall, CstOutcome, Event};

fn open(label: &str) -> Event {
    Event::Open {
        label: label.as_bytes().to_vec(),
    }
}

fn literal(text: &str, start: usize, end: usize) -> Event {
    Event::Literal {
        literal: text.as_bytes().to_vec(),
        start,
        end,
    }
}

fn error(description: &str) -> Event {
    Event::Error {
        description: description.as_bytes().to_vec(),
    }
}

fn select_one() -> Vec<Event> {
    vec![
        open("sql_stmt_list"),
        open("select_stmt"),
        literal("SELECT", 0, 6),
        error("DISTINCT"),
        open("numeric_literal"),
        Event::Pattern { start: 7, end: 8 },
        Event::Close,
        Event::Close,
        Event::Close,
    ]
}

fn call_depth_profile(calls: &[CstCall]) -> Vec<i64> {
    let mut depth: i64 = 0;
    let mut profile = Vec::new();
    for call in calls {
        match call {
            CstCall::Open { .. } => depth += 1,
            CstCall::Close => depth -= 1,
            _ => {}
        }
        profile.push(depth);
    }
    profile
}

#[test]
fn replay_keeps_order_and_drops_errors() {
    let calls = replay(select_one());
    assert_eq!(
        calls,
        vec![
            CstCall::Open {
                label: b"sql_stmt_list".to_vec()
            },
            CstCall::Open {
                label: b"select_stmt".to_vec()
            },
            CstCall::Literal {
                literal: b"SELECT".to_vec(),
                start: 0,
                end: 6
            },
            CstCall::Open {
                label: b"numeric_literal".to_vec()
            },
            CstCall::Pattern { start: 7, end: 8 },
            CstCall::Close,
            CstCall::Close,
            CstCall::Close,
        ]
    );
}

#[test]
fn replay_of_nothing_is_nothing() {
    assert_eq!(replay(vec![]), vec![]);
}

#[test]
fn replay_of_errors_only_is_nothing() {
    assert_eq!(replay(vec![error("a"), error("b")]), vec![]);
}

#[test]
fn replay_of_balanced_events_is_balanced() {
    let events = select_one();
    assert!(is_balanced(&events));
    let calls = replay(events);
    let profile = call_depth_profile(&calls);
    assert_eq!(profile, vec![1, 2, 2, 3, 3, 2, 1, 0]);
    assert!(profile.iter().all(|d| *d >= 0));
    assert_eq!(profile.last(), Some(&0));
}

#[test]
fn balanced_accepts_the_empty_list() {
    assert!(is_balanced(&vec![]));
}

#[test]
fn balanced_accepts_siblings() {
    let events = vec![
        open("a"),
        Event::Close,
        open("b"),
        open("c"),
        Event::Close,
        Event::Close,
    ];
    assert!(is_balanced(&events));
}

#[test]
fn balanced_rejects_an_open_node() {
    assert!(!is_balanced(&vec![open("a")]));
    assert!(!is_balanced(&vec![open("a"), open("b"), Event::Close]));
}

#[test]
fn balanced_rejects_a_close_without_open() {
    assert!(!is_balanced(&vec![Event::Close]));
    assert!(!is_balanced(&vec![Event::Close, open("a")]));
    assert!(!is_balanced(&vec![
        open("a"),
        Event::Close,
        Event::Close,
        open("b")
    ]));
}

#[test]
fn balanced_ignores_leaves_and_errors() {
    let events = vec![
        literal("x", 0, 1),
        error("e"),
        Event::Pattern { start: 1, end: 2 },
    ];
    assert!(is_balanced(&events));
}

#[test]
fn accepted_pass_is_replayed() {
    let out = endb_parse_sql_cst(true, select_one());
    assert_eq!(out, CstOutcome::Replay(replay(select_one())));
}

#[test]
fn accepted_pass_of_empty_text_replays_nothing() {
    let out = endb_parse_sql_cst(true, vec![]);
    assert_eq!(out, CstOutcome::Replay(vec![]));
}

#[test]
fn rejected_pass_asks_for_a_diagnostic() {
    let events = vec![open("sql_stmt_list"), literal("SELECT", 0, 6)];
    assert_eq!(endb_parse_sql_cst(false, events), CstOutcome::Diagnose);
    assert_eq!(endb_parse_sql_cst(false, vec![]), CstOutcome::Diagnose);
}
