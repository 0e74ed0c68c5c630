use mafold_cli::client::{
    conversation_id, draft_id, is_conversation_id, open_envelope, ApiCall, ApiError, Chat, Client,
    Reply,
};
use mafold_cli::json::{parse_text, Json};
use mafold_cli::turn::Action;

const UUID: &str = "123e4567-e89b-12d3-a456-426614174000";

fn client() -> Client {
    Client::new("https://api.mafold.com".to_string(), "mb_x".to_string())
}

fn json(s: &str) -> Json {
    parse_text(s).unwrap()
}

fn assert_call(call: &ApiCall, method: &str, body: &str) {
    assert_eq!(call.method, method);
    assert_eq!(call.url, format!("https://api.mafold.com/api/{method}"));
    assert_eq!(call.token, "mb_x");
    assert_eq!(call.body, json(body));
}

fn body(s: &str) -> Reply {
    Reply::Body(s.as_bytes().to_vec())
}

#[test]
fn each_method_posts_its_request() {
    let c = client();
    assert_call(&c.me(), "getMe", "{}");
    assert_call(&c.chats(), "getChats", "{}");
    assert_call(&c.send("c1", "hi"), "sendMessage", r#"{"chat_id":"c1","text":"hi"}"#);
    assert_call(&c.create_draft("c1"), "botCreateDraft", r#"{"chat_id":"c1"}"#);
    assert_call(&c.finalize("m1"), "botFinalize", r#"{"message_id":"m1"}"#);
    assert_call(&c.post("other", Json::Null), "other", "null");
    let call = c.append_delta("m1", "more");
    assert_eq!(call.method, "botAppendDelta");
    assert_eq!(
        call.body,
        Json::Object(vec![
            ("message_id".to_string(), Json::Text("m1".to_string())),
            ("delta".to_string(), Json::Text("more".to_string())),
        ])
    );
}

#[test]
fn a_result_is_taken_out_of_its_envelope() {
    let call = client().me();
    assert_eq!(
        call.answer(body(r#"{"ok":true,"result":{"username":"bot"}}"#)),
        Ok(json(r#"{"username":"bot"}"#))
    );
    assert_eq!(call.answer(body(r#"{"result":[1]}"#)), Ok(json("[1]")));
    assert_eq!(call.answer(body(r#"{"ok":true}"#)), Ok(Json::Null));
    assert_eq!(call.answer(body("[]")), Ok(Json::Null));
    assert_eq!(call.answer(body(r#"{"ok":"false","result":1}"#)), Ok(json("1")));
}

#[test]
fn a_refusal_is_told_with_its_description() {
    let call = client().me();
    let e = call.answer(body(r#"{"ok":false,"description":"bad token"}"#)).unwrap_err();
    assert_eq!(e, ApiError::Refused("getMe".to_string(), "bad token".to_string()));
    assert_eq!(e.message(), "getMe: bad token");
    let e = call.answer(body(r#"{"ok":false,"result":1}"#)).unwrap_err();
    assert_eq!(e.message(), "getMe: error");
    let e = open_envelope("m", &json(r#"{"ok":false,"description":7}"#)).unwrap_err();
    assert_eq!(e.message(), "m: error");
}

#[test]
fn a_failed_exchange_is_told() {
    let call = client().chats();
    let e = call.answer(Reply::NotAnswered("timeout".to_string())).unwrap_err();
    assert_eq!(e, ApiError::NotAnswered("getChats".to_string(), "timeout".to_string()));
    assert_eq!(e.message(), "getChats request failed");
    let e = call.answer(Reply::NotRead("reset".to_string())).unwrap_err();
    assert_eq!(e, ApiError::NotJson("getChats".to_string(), "reset".to_string()));
    assert_eq!(e.message(), "getChats returned non-JSON");
    let e = call.answer(body("<html>")).unwrap_err();
    assert_eq!(
        e,
        ApiError::NotJson("getChats".to_string(), "expected value at line 1 column 1".to_string())
    );
}

#[test]
fn ids_are_taken_out_of_results() {
    assert_eq!(conversation_id(&json(r#"{"id":"c9"}"#)), Ok("c9".to_string()));
    assert_eq!(draft_id(&json(r#"{"id":"m9"}"#)), Ok("m9".to_string()));
    let e = conversation_id(&json(r#"{"id":9}"#)).unwrap_err();
    assert_eq!(e, ApiError::NoConversationId);
    assert_eq!(e.message(), "startChat: no conversation id");
    let e = draft_id(&Json::Null).unwrap_err();
    assert_eq!(e, ApiError::NoDraftId);
    assert_eq!(e.message(), "botCreateDraft: no id");
}

#[test]
fn a_conversation_id_is_used_as_it_is() {
    assert_eq!(client().resolve_chat(UUID), Chat::Known(UUID.to_string()));
    assert_eq!(client().resolve_chat(&format!("@{UUID}")), Chat::Known(UUID.to_string()));
    let upper = UUID.to_uppercase();
    assert_eq!(client().resolve_chat(&upper), Chat::Known(upper.clone()));
}

#[test]
fn anything_else_is_a_user_name() {
    for arg in ["alice", "@alice", "@@alice"] {
        match client().resolve_chat(arg) {
            Chat::Start(call) => assert_call(&call, "startChat", r#"{"user_ids":["alice"]}"#),
            Chat::Known(id) => panic!("{id}"),
        }
    }
    let name = "zzzzzzzz-zzzz-zzzz-zzzz-zzzzzzzzzzzz";
    match client().resolve_chat(name) {
        Chat::Start(call) => {
            assert_call(&call, "startChat", &format!(r#"{{"user_ids":["{name}"]}}"#));
            let reply = body(r#"{"ok":true,"result":{"id":"c9"}}"#);
            assert_eq!(call.conversation(reply), Ok("c9".to_string()));
        }
        Chat::Known(id) => panic!("{id}"),
    }
    let odd = format!("----{}", "é".repeat(16));
    let shifted = format!("1{}", &UUID[..35]);
    let almost = UUID.replacen('0', "g", 1);
    let plus = UUID.replace('-', "+");
    let long = format!("{UUID}0");
    for arg in [&odd, &shifted, &almost, &plus, &long, &UUID[1..], ""] {
        assert!(!is_conversation_id(arg), "{arg}");
        assert!(matches!(client().resolve_chat(arg), Chat::Start(_)), "{arg}");
    }
}

#[test]
fn an_id_is_read_from_the_reply() {
    let call = client().create_draft("c1");
    let ok = r#"{"ok":true,"result":{"id":"m9"}}"#;
    assert_eq!(call.draft(body(ok)), Ok("m9".to_string()));
    assert_eq!(call.draft(body(r#"{"ok":true,"result":{}}"#)), Err(ApiError::NoDraftId));
    let refused = body(r#"{"ok":false,"description":"no"}"#);
    let e = call.draft(refused).unwrap_err();
    assert_eq!(e.message(), "botCreateDraft: no");
    let call = client().post("startChat", Json::Null);
    assert_eq!(call.conversation(body(ok)), Ok("m9".to_string()));
    assert_eq!(call.conversation(body("{}")), Err(ApiError::NoConversationId));
    let e = call.conversation(Reply::NotAnswered("down".to_string())).unwrap_err();
    assert_eq!(e.message(), "startChat request failed");
}

#[test]
fn three_actions_make_a_request() {
    let c = client();
    let s = |t: &str| t.to_string();
    assert_eq!(c.request(&Action::CreateDraft(s("c1"))), Some(c.create_draft("c1")));
    assert_eq!(c.request(&Action::Append(s("m1"), s("x"))), Some(c.append_delta("m1", "x")));
    assert_eq!(c.request(&Action::Finalize(s("m1"))), Some(c.finalize("m1")));
    for other in [
        Action::CheckWorkdir(s("/w")),
        Action::ReadLine,
        Action::WaitForExit,
        Action::ReadErrors,
        Action::Done,
        Action::Fail(s("x")),
    ] {
        assert_eq!(c.request(&other), None);
    }
}

#[test]
fn events_are_listened_for_on_the_same_server() {
    let url = |base: &str| Client::new(base.to_string(), "t".to_string()).ws_url();
    assert_eq!(client().ws_url(), "wss://api.mafold.com/api/ws?token=mb_x");
    assert_eq!(url("http://localhost:8080"), "ws://localhost:8080/api/ws?token=t");
    assert_eq!(url("localhost"), "localhost/api/ws?token=t");
    // Each scheme is replaced once, wherever it stands.
    assert_eq!(url("https://a/http://b"), "wss://a/ws://b/api/ws?token=t");
    assert_eq!(url("http://a/https://b"), "ws://a/wss://b/api/ws?token=t");
    assert_eq!(url("http://a/http://b"), "ws://a/http://b/api/ws?token=t");
}
