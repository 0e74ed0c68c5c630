use mafold_cli::assistant::Assistant;
use mafold_cli::json::{parse_text, Json};
use mafold_cli::output::{read_line, read_record, Signal};
use mafold_cli::turn::{
    launch_arguments, variables_to_hide, Action, Event, Launch, Phase, Start, Turn,
};

fn scribe() -> Assistant {
    Assistant {
        command: "scribe".to_string(),
        product: "Scribe Pro".to_string(),
    }
}

fn fresh() -> Turn {
    Turn::new(scribe(), "c1", "/work", "hello")
}

fn drafted() -> Turn {
    let mut t = fresh();
    t.on_event(Event::Draft(Ok("m1".to_string())));
    t
}

fn reading() -> Turn {
    let mut t = drafted();
    t.on_event(Event::Workdir(true));
    t.on_event(Event::Started(Start::Running));
    t
}

fn append(text: &str) -> Action {
    Action::Append("m1".to_string(), text.to_string())
}

fn delta(text: &str) -> String {
    format!(
        r#"{{"type":"stream_event","event":{{"type":"content_block_delta","delta":{{"type":"text_delta","text":"{text}"}}}}}}"#
    )
}

fn line(text: &str, ms: u128) -> Event {
    Event::Line(delta(text), ms)
}

/// Drives a turn with these events; what was done, in order.
fn play(t: &mut Turn, events: Vec<Event>) -> Vec<Action> {
    let mut deeds = Vec::new();
    for e in events {
        deeds.push(t.action());
        t.on_event(e);
    }
    deeds
}

/// What was appended, in order.
fn texts(deeds: &[Action]) -> Vec<String> {
    deeds
        .iter()
        .filter_map(|d| match d {
            Action::Append(_, text) => Some(text.clone()),
            _ => None,
        })
        .collect()
}

#[test]
fn records_say_what_they_say() {
    let record = |s: &str| read_record(&parse_text(s).unwrap());
    assert_eq!(record(&delta("hi")), Signal::Text("hi".to_string()));
    assert_eq!(record(&delta("")), Signal::Text(String::new()));
    assert_eq!(record(r#"{"type":"result","result":"hi"}"#), Signal::End);
    assert_eq!(record(r#"{"type":"system"}"#), Signal::Nothing);
    assert_eq!(record(&delta("x").replace("text_delta", "input_json_delta")), Signal::Nothing);
    assert_eq!(record(&delta("x").replace("content_block_delta", "message_delta")), Signal::Nothing);
    assert_eq!(record(&delta("x").replace("\"x\"", "3")), Signal::Nothing);
    assert_eq!(record("[]"), Signal::Nothing);
    assert_eq!(read_record(&Json::Null), Signal::Nothing);
}

#[test]
fn lines_that_are_blank_or_no_json_say_nothing() {
    assert_eq!(read_line(""), Signal::Nothing);
    assert_eq!(read_line(" \t\u{a0}"), Signal::Nothing);
    assert_eq!(read_line("starting up"), Signal::Nothing);
    assert_eq!(read_line(&format!("\u{a0}{}\u{3000}", delta("x"))), Signal::Text("x".to_string()));
    assert_eq!(read_line("  {\"type\":\"result\"}  "), Signal::End);
}

#[test]
fn the_assistant_is_started_in_the_directory() {
    let mut t = fresh();
    assert_eq!(t.action(), Action::CreateDraft("c1".to_string()));
    t.on_event(Event::Draft(Ok("m1".to_string())));
    assert_eq!(t.action(), Action::CheckWorkdir("/work".to_string()));
    t.on_event(Event::Workdir(true));
    assert_eq!(
        t.action(),
        Action::Start(Launch {
            command: "scribe".to_string(),
            arguments: launch_arguments("hello"),
            workdir: "/work".to_string(),
            unset: variables_to_hide(),
        })
    );
    assert_eq!(variables_to_hide(), ["CLAUDECODE", "ANTHROPIC_API_KEY"]);
    assert_eq!(
        launch_arguments("hello"),
        [
            "-p",
            "hello",
            "--output-format",
            "stream-json",
            "--verbose",
            "--include-partial-messages",
            "--dangerously-skip-permissions"
        ]
    );
    t.on_event(Event::Started(Start::Running));
    assert_eq!(t.action(), Action::ReadLine);
}

#[test]
fn a_reply_is_streamed_and_finalized() {
    let mut t = reading();
    let long = "x".repeat(118);
    let deeds = play(
        &mut t,
        vec![
            line("a", 0),
            line(&long, 119),
            line("b", 119),
            Event::Appended,
            Event::Line("noise".to_string(), 500),
            line("c", 120),
            Event::Appended,
            line("d", 3),
            Event::Line(r#"{"type":"result"}"#.to_string(), 900),
            Event::Appended,
            Event::Exited(true),
            Event::Finalized,
        ],
    );
    assert_eq!(texts(&deeds), [format!("a{long}b"), "c".to_string(), "d".to_string()]);
    assert_eq!(deeds.last(), Some(&Action::Finalize("m1".to_string())));
    assert_eq!(t.phase, Phase::Finished);
    assert_eq!(t.action(), Action::Done);
}

#[test]
fn what_was_said_is_what_is_appended() {
    let pieces = ["He", "llo, ", "wörld", "", " 🦀", "!"];
    for ms in [0, 50, 119, 120, 1000] {
        let mut t = reading();
        let mut sent = String::new();
        for piece in pieces {
            t.on_event(line(piece, ms));
            if let Action::Append(id, text) = t.action() {
                assert_eq!(id, "m1");
                sent.push_str(&text);
                t.on_event(Event::Appended);
            }
        }
        t.on_event(Event::OutputEnded);
        if let Action::Append(_, text) = t.action() {
            sent.push_str(&text);
            t.on_event(Event::Appended);
        }
        assert_eq!(sent, pieces.concat());
        assert_eq!(t.action(), Action::WaitForExit);
        t.on_event(Event::Exited(true));
        assert_eq!(t.action(), Action::Finalize("m1".to_string()));
    }
}

#[test]
fn little_is_held_back() {
    let mut t = reading();
    t.on_event(line(&"é".repeat(59), 0));
    assert_eq!(t.action(), Action::ReadLine);
    t.on_event(line("é", 0));
    assert_eq!(t.action(), append(&"é".repeat(60)));
    t.on_event(Event::Appended);
    assert_eq!(t.buffer, "");
}

#[test]
fn an_empty_piece_counts_as_output() {
    let mut t = reading();
    let deeds = play(
        &mut t,
        vec![line("", 120), Event::Appended, Event::OutputEnded, Event::Exited(true), Event::Finalized],
    );
    assert_eq!(texts(&deeds), [""]);
    assert_eq!(t.phase, Phase::Finished);
}

#[test]
fn silence_is_noted() {
    let mut t = reading();
    let deeds = play(
        &mut t,
        vec![Event::OutputEnded, Event::Exited(true), Event::Appended, Event::Finalized],
    );
    assert_eq!(texts(&deeds), ["_(the agent produced no output)_"]);
    assert_eq!(t.phase, Phase::Finished);
}

#[test]
fn every_failure_is_told_and_then_finalized() {
    let waiting = || {
        let mut t = reading();
        t.on_event(Event::OutputEnded);
        t
    };
    let starting = || {
        let mut t = drafted();
        t.on_event(Event::Workdir(true));
        t
    };
    let diagnosing = || {
        let mut t = waiting();
        t.on_event(Event::Exited(false));
        assert_eq!(t.action(), Action::ReadErrors);
        t
    };
    let cases = vec![
        (
            drafted(),
            Event::Workdir(false),
            "working directory does not exist: /work — check --workdir",
        ),
        (
            starting(),
            Event::Started(Start::NotStarted),
            "couldn't run `scribe` in /work — is Scribe Pro installed and on PATH?",
        ),
        (starting(), Event::Started(Start::NoOutput), "no stdout"),
        (reading(), Event::OutputBroken("pipe".to_string()), "pipe"),
        (waiting(), Event::ExitUnknown("lost".to_string()), "lost"),
        (
            diagnosing(),
            Event::Errors(" bad key\n".to_string()),
            "scribe exited unsuccessfully: bad key",
        ),
        (diagnosing(), Event::Errors(" \n".to_string()), "scribe exited unsuccessfully"),
    ];
    for (mut t, event, why) in cases {
        assert_eq!(t.failure(&event), Some(why.to_string()));
        t.on_event(event);
        assert_eq!(t.action(), append(&format!("⚠️ Agent error: {why}")));
        t.on_event(Event::Appended);
        assert_eq!(t.action(), Action::Finalize("m1".to_string()));
        t.on_event(Event::Finalized);
        assert_eq!(t.phase, Phase::Finished);
    }
}

#[test]
fn what_is_held_back_is_lost_when_the_output_breaks() {
    let mut t = reading();
    let deeds = play(
        &mut t,
        vec![
            line("first", 120),
            Event::Appended,
            line("second", 0),
            Event::OutputBroken("pipe".to_string()),
            Event::Appended,
            Event::Finalized,
        ],
    );
    assert_eq!(texts(&deeds), ["first", "⚠️ Agent error: pipe"]);
}

#[test]
fn without_a_draft_the_turn_is_over() {
    let mut t = fresh();
    t.on_event(Event::Draft(Err("botCreateDraft: no id".to_string())));
    assert_eq!(t.action(), Action::Fail("botCreateDraft: no id".to_string()));
    t.on_event(Event::Workdir(true));
    t.on_event(Event::Finalized);
    assert_eq!(t.phase, Phase::Refused("botCreateDraft: no id".to_string()));
}

#[test]
fn events_that_are_not_waited_for_change_nothing() {
    let mut t = reading();
    for e in [
        Event::Draft(Ok("m2".to_string())),
        Event::Workdir(false),
        Event::Started(Start::NotStarted),
        Event::Appended,
        Event::Exited(false),
        Event::ExitUnknown("x".to_string()),
        Event::Errors("x".to_string()),
        Event::Finalized,
    ] {
        assert_eq!(t.failure(&e), None);
        t.on_event(e);
        assert_eq!(t, reading());
    }
}

#[test]
fn a_turn_is_over_soon_after_the_output() {
    let mut t = reading();
    t.on_event(line("tail", 0));
    t.on_event(Event::OutputEnded);
    let mut steps = 0;
    while t.phase != Phase::Finished {
        let event = match t.action() {
            Action::Append(_, _) => Event::Appended,
            Action::WaitForExit => Event::Exited(false),
            Action::ReadErrors => Event::Errors(String::new()),
            Action::Finalize(_) => Event::Finalized,
            other => panic!("{other:?}"),
        };
        t.on_event(event);
        steps += 1;
    }
    assert_eq!(steps, 5);
}

#[test]
fn there_are_no_more_appends_than_pieces() {
    for ms in [0, 119, 120] {
        for length in [0, 1, 50, 119, 120, 500] {
            let mut t = reading();
            let mut appends = 0;
            for n in 1..=7 {
                t.on_event(line(&"x".repeat(length), ms));
                if matches!(t.action(), Action::Append(_, _)) {
                    appends += 1;
                    t.on_event(Event::Appended);
                }
                assert!(appends <= n);
            }
            t.on_event(Event::OutputEnded);
            if matches!(t.action(), Action::Append(_, _)) {
                appends += 1;
                t.on_event(Event::Appended);
            }
            assert!(appends <= 7);
            t.on_event(Event::Exited(true));
            assert_eq!(t.action(), Action::Finalize("m1".to_string()));
        }
    }
}
