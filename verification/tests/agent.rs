use mafold_cli::agent::{
    decode_message, identity, message_for, message_in, next_ping, run, Agent, AgentError, Frame,
    IncomingMessage, Sender, Status,
};
use mafold_cli::assistant::{assistant_in, read_assistant, Assistant};
use mafold_cli::client::{ApiError, Client, Reply};
use mafold_cli::json::{parse_text, Json};
use mafold_cli::turn::{Action, Phase};

fn json(s: &str) -> Json {
    parse_text(s).unwrap()
}

fn incoming(id: &str, from: &str, content: &str) -> IncomingMessage {
    IncomingMessage {
        conversation_id: id.to_string(),
        sender: Sender { username: from.to_string() },
        content: content.to_string(),
    }
}

fn scribe() -> Assistant {
    Assistant {
        command: "scribe".to_string(),
        product: "Scribe".to_string(),
    }
}

fn agent() -> Agent {
    let client = Client::new("https://m".to_string(), "mb_x".to_string());
    run(client, scribe(), "/work".to_string())
}

fn listening() -> Agent {
    let mut a = agent();
    a.on_identity(Reply::Body(br#"{"ok":true,"result":{"username":"Bot"}}"#.to_vec()));
    a.on_connected(Ok(()));
    a
}

const EVENT: &str = r#"{"method":"events.messageNew","params":
    {"conversation_id":"c1","sender":{"username":"alice","id":7},"content":" hi ","extra":[]}}"#;

#[test]
fn an_account_is_known_by_its_name() {
    assert_eq!(identity(Ok(json(r#"{"username":"bot"}"#))), Ok("bot".to_string()));
    for v in [r#"{"username":""}"#, r#"{"username":5}"#, "{}", "null"] {
        let e = identity(Ok(json(v))).unwrap_err();
        assert_eq!(e, AgentError::NoIdentity);
        assert_eq!(e.message(), "could not resolve bot identity (bad token?)");
    }
    let e = identity(Err(ApiError::NoDraftId)).unwrap_err();
    assert_eq!(e, AgentError::GetMe(ApiError::NoDraftId));
    assert_eq!(e.message(), "getMe failed — check the token / --base");
}

#[test]
fn messages_are_decoded() {
    let decode = |s: &str| decode_message(&json(s));
    assert_eq!(
        decode(r#"{"conversation_id":"c","sender":{"username":"u"},"content":"x"}"#),
        Some(incoming("c", "u", "x"))
    );
    assert_eq!(
        decode(r#"{"conversation_id":"c","sender":{"username":"u"}}"#),
        Some(incoming("c", "u", ""))
    );
    assert_eq!(decode(r#"["c",["u"],"x"]"#), Some(incoming("c", "u", "x")));
    assert_eq!(decode(r#"["c",{"username":"u"}]"#), Some(incoming("c", "u", "")));
    for bad in [
        "null",
        "\"c\"",
        "{}",
        r#"{"conversation_id":1,"sender":{"username":"u"}}"#,
        r#"{"conversation_id":"c"}"#,
        r#"{"conversation_id":"c","sender":"u"}"#,
        r#"{"conversation_id":"c","sender":{}}"#,
        r#"{"conversation_id":"c","sender":{"username":"u"},"content":null}"#,
        "[]",
        r#"["c"]"#,
        r#"["c",["u","v"]]"#,
        r#"["c",["u"],"x","y"]"#,
        r#"["c",["u"],null]"#,
    ] {
        assert_eq!(decode(bad), None, "{bad}");
    }
}

#[test]
fn new_messages_of_others_are_answered() {
    assert_eq!(message_in(EVENT, "bot"), Some(incoming("c1", "alice", " hi ")));
    assert_eq!(message_for(&json(EVENT), "bot"), Some(incoming("c1", "alice", " hi ")));
}

#[test]
fn own_and_blank_messages_are_not_answered() {
    assert_eq!(message_in(EVENT, "alice"), None);
    assert_eq!(message_in(EVENT, "ALIce"), None);
    assert_eq!(message_in(&EVENT.replace(" hi ", " \\n\\u00a0"), "bot"), None);
    assert_eq!(message_in(&EVENT.replace(" hi ", ""), "bot"), None);
}

#[test]
fn other_frames_are_not_answered() {
    assert_eq!(message_in(&EVENT.replace("messageNew", "messageEdited"), "bot"), None);
    assert_eq!(message_in("not json", "bot"), None);
    assert_eq!(message_in("[]", "bot"), None);
    assert_eq!(message_in(r#"{"method":"events.messageNew"}"#, "bot"), None);
    assert_eq!(message_in(r#"{"method":7,"params":{}}"#, "bot"), None);
}

#[test]
fn an_agent_comes_up_step_by_step() {
    let mut a = agent();
    assert_eq!(a.status, Status::Identifying);
    assert_eq!(a.on_frame(Frame::Text(EVENT.to_string())), None);
    a.on_connected(Ok(()));
    assert_eq!(a.status, Status::Identifying);
    a.on_identity(Reply::Body(br#"{"ok":true,"result":{"username":"Bot"}}"#.to_vec()));
    assert_eq!(a.status, Status::Connecting);
    assert_eq!(a.me, "Bot");
    a.on_connected(Ok(()));
    assert_eq!(a.status, Status::Listening);
}

#[test]
fn an_agent_that_does_not_come_up_says_why() {
    let mut a = agent();
    a.on_identity(Reply::Body(br#"{"ok":false,"description":"no"}"#.to_vec()));
    let refused = ApiError::Refused("getMe".to_string(), "no".to_string());
    assert_eq!(a.status, Status::Failed(AgentError::GetMe(refused)));
    let mut a = agent();
    a.on_identity(Reply::Body(b"{}".to_vec()));
    assert_eq!(a.status, Status::Failed(AgentError::NoIdentity));
    a.on_connected(Ok(()));
    assert_eq!(a.status, Status::Failed(AgentError::NoIdentity));
    let mut a = agent();
    a.on_identity(Reply::Body(br#"{"result":{"username":"b"}}"#.to_vec()));
    a.on_connected(Err("tls".to_string()));
    let e = AgentError::NotConnected("tls".to_string());
    assert_eq!(e.message(), "WebSocket connect failed");
    assert_eq!(a.status, Status::Failed(e));
}

#[test]
fn an_agent_begins_a_turn_for_each_message() {
    let mut a = listening();
    let m = a.on_frame(Frame::Text(EVENT.to_string())).unwrap();
    assert_eq!(m, incoming("c1", "alice", " hi "));
    let turn = a.handle(&m);
    assert_eq!(turn.action(), Action::CreateDraft("c1".to_string()));
    assert_eq!(turn.prompt, " hi ");
    assert_eq!(turn.workdir, "/work");
    assert_eq!(turn.assistant, scribe());
    assert_eq!(turn.phase, Phase::Drafting);
    assert_eq!(a.on_frame(Frame::NoText), None);
    assert_eq!(a.on_frame(Frame::Text(EVENT.replace("alice", "bOT"))), None);
    assert_eq!(a.status, Status::Listening);
}

#[test]
fn an_agent_stops_when_the_stream_does() {
    for frame in [Frame::Closed, Frame::Broken] {
        let mut a = listening();
        assert_eq!(a.on_frame(frame), None);
        assert_eq!(a.status, Status::Stopped);
        assert_eq!(a.on_frame(Frame::Text(EVENT.to_string())), None);
    }
}

#[test]
fn an_assistant_is_described_in_json() {
    let text = r#"{"command":"scribe","product":"Scribe","more":[]}"#;
    assert_eq!(read_assistant(text), Some(scribe()));
    assert_eq!(assistant_in(&json(text)), Some(scribe()));
    assert_eq!(scribe().clone(), scribe());
    for bad in [
        "",
        "[]",
        r#"{"command":"a"}"#,
        r#"{"product":"b"}"#,
        r#"{"command":"a","product":1}"#,
        r#"["a","b"]"#,
    ] {
        assert_eq!(read_assistant(bad), None);
    }
}

#[test]
fn pings_go_on_until_one_fails() {
    assert_eq!(next_ping(None), Some(0));
    assert_eq!(next_ping(Some(true)), Some(25_000));
    assert_eq!(next_ping(Some(false)), None);
}
