//! The Mafold client: which requests it makes and how it reads the answers. It is
//! account-symmetric, so the same client serves both the human-facing commands
//! and the agent daemon.
use crate::assistant::AssistantView;
use crate::json::{bytes_json, law_first_entry_counts, parse_bytes, Json, JsonView};
use crate::text::{
    characters, first_at, law_without_an_occurrence_nothing_is_replaced, lemma_first_at_unique,
    replace_first, replaced_first, stands_at, strip_leading, stripped,
};
use crate::turn::{
    appended, appended_by, broke_off, failure_notice, fresh, law_draft_is_finalized,
    law_failure_is_told, law_reply_arrives_unchanged, silence_notice, words, Action, ActionView,
    EventView,
};
use vstd::prelude::*;
use vstd::string::*;

verus! {

/// Why a call of the API did not give what it was made for.
#[derive(Debug, PartialEq)]
pub enum ApiError {
    /// The request of this method was not answered; why.
    NotAnswered(String, String),
    /// The answer to this method was no JSON; why.
    NotJson(String, String),
    /// This method was refused, with this description.
    Refused(String, String),
    /// `startChat` was answered without a conversation id.
    NoConversationId,
    /// `botCreateDraft` was answered without a message id.
    NoDraftId,
}

/// The model of an [`ApiError`].
pub enum ApiErrorView {
    NotAnswered(Seq<char>, Seq<char>),
    NotJson(Seq<char>, Seq<char>),
    Refused(Seq<char>, Seq<char>),
    NoConversationId,
    NoDraftId,
}

impl View for ApiError {
    type V = ApiErrorView;

    open spec fn view(&self) -> ApiErrorView {
        match self {
            ApiError::NotAnswered(method, why) => ApiErrorView::NotAnswered(method@, why@),
            ApiError::NotJson(method, why) => ApiErrorView::NotJson(method@, why@),
            ApiError::Refused(method, description) => ApiErrorView::Refused(method@, description@),
            ApiError::NoConversationId => ApiErrorView::NoConversationId,
            ApiError::NoDraftId => ApiErrorView::NoDraftId,
        }
    }
}

impl ApiErrorView {
    /// What the user is told.
    pub open spec fn message(self) -> Seq<char> {
        match self {
            ApiErrorView::NotAnswered(method, _) => method + " request failed"@,
            ApiErrorView::NotJson(method, _) => method + " returned non-JSON"@,
            ApiErrorView::Refused(method, description) => method + ": "@ + description,
            ApiErrorView::NoConversationId => "startChat: no conversation id"@,
            ApiErrorView::NoDraftId => "botCreateDraft: no id"@,
        }
    }
}

impl ApiError {
    /// What the user is told.
    pub fn message(&self) -> (r: String)
        ensures
            r@ == self@.message(),
    {
        match self {
            ApiError::NotAnswered(method, _) => method.clone().concat(" request failed"),
            ApiError::NotJson(method, _) => method.clone().concat(" returned non-JSON"),
            ApiError::Refused(method, description) => method.clone().concat(": ").concat(
                description.as_str(),
            ),
            ApiError::NoConversationId => "startChat: no conversation id".to_owned(),
            ApiError::NoDraftId => "botCreateDraft: no id".to_owned(),
        }
    }
}

/// One request to the API: a JSON body that is posted to an address, with the
/// token as the bearer's.
#[derive(Debug, PartialEq)]
pub struct ApiCall {
    pub method: String,
    pub url: String,
    pub token: String,
    pub body: Json,
}

/// The model of an [`ApiCall`].
pub struct ApiCallView {
    pub method: Seq<char>,
    pub url: Seq<char>,
    pub token: Seq<char>,
    pub body: JsonView,
}

impl View for ApiCall {
    type V = ApiCallView;

    open spec fn view(&self) -> ApiCallView {
        ApiCallView {
            method: self.method@,
            url: self.url@,
            token: self.token@,
            body: self.body@,
        }
    }
}

/// What came back for a request.
#[derive(Debug, PartialEq)]
pub enum Reply {
    /// The request could not be sent or was not answered; why.
    NotAnswered(String),
    /// The body of the answer could not be read to its end; why.
    NotRead(String),
    /// The body of the answer.
    Body(Vec<u8>),
}

/// The model of a [`Reply`].
pub enum ReplyView {
    NotAnswered(Seq<char>),
    NotRead(Seq<char>),
    Body(Seq<u8>),
}

impl View for Reply {
    type V = ReplyView;

    open spec fn view(&self) -> ReplyView {
        match self {
            Reply::NotAnswered(why) => ReplyView::NotAnswered(why@),
            Reply::NotRead(why) => ReplyView::NotRead(why@),
            Reply::Body(body) => ReplyView::Body(body@),
        }
    }
}

/// What the `{ok, result}` envelope around every answer holds: a refusal if `ok`
/// is false, else the result.
pub open spec fn opened(method: Seq<char>, v: JsonView) -> Result<JsonView, ApiErrorView> {
    if v.at("ok"@) == JsonView::Bool(false) {
        Err(
            ApiErrorView::Refused(
                method,
                match v.at("description"@).text() {
                    Some(description) => description,
                    None => "error"@,
                },
            ),
        )
    } else {
        Ok(v.at("result"@))
    }
}

/// The result of a call, from what came back for its request.
pub open spec fn answered(method: Seq<char>, reply: ReplyView) -> Result<JsonView, ApiErrorView> {
    match reply {
        ReplyView::NotAnswered(why) => Err(ApiErrorView::NotAnswered(method, why)),
        ReplyView::NotRead(why) => Err(ApiErrorView::NotJson(method, why)),
        ReplyView::Body(body) => match bytes_json(body) {
            Ok(v) => opened(method, v),
            Err(why) => Err(ApiErrorView::NotJson(method, why)),
        },
    }
}

/// Opens the `{ok, result}` envelope of an answer to `method`.
pub fn open_envelope(method: &str, v: &Json) -> (r: Result<Json, ApiError>)
    ensures
        r matches Ok(j) ==> opened(method@, v@) == Ok::<_, ApiErrorView>(j@),
        r matches Err(e) ==> opened(method@, v@) == Err::<JsonView, _>(e@),
        r is Err <==> v@.at("ok"@) == JsonView::Bool(false),
        r matches Ok(j) ==> j@ == v@.at("result"@),
{
    if let Some(Json::Bool(false)) = v.get("ok") {
        let description = match v.text_at("description") {
            Some(description) => description,
            None => "error",
        };
        return Err(ApiError::Refused(method.to_owned(), description.to_owned()));
    }
    match v.get("result") {
        Some(result) => Ok(result.clone()),
        None => Ok(Json::Null),
    }
}

impl ApiCall {
    /// The result of this call, from what came back for its request.
    pub fn answer(&self, reply: Reply) -> (r: Result<Json, ApiError>)
        ensures
            r matches Ok(j) ==> answered(self@.method, reply@) == Ok::<_, ApiErrorView>(j@),
            r matches Err(e) ==> answered(self@.method, reply@) == Err::<JsonView, _>(e@),
            reply matches Reply::Body(body) ==> (bytes_json(body@) matches Ok(v) ==> (v.at("ok"@)
                != JsonView::Bool(false) ==> (r matches Ok(j) && j@ == v.at("result"@)))),
    {
        match reply {
            Reply::NotAnswered(why) => Err(ApiError::NotAnswered(self.method.clone(), why)),
            Reply::NotRead(why) => Err(ApiError::NotJson(self.method.clone(), why)),
            Reply::Body(body) => match parse_bytes(body.as_slice()) {
                Ok(v) => open_envelope(self.method.as_str(), &v),
                Err(why) => Err(ApiError::NotJson(self.method.clone(), why)),
            },
        }
    }
}

/// The conversation id in the result of `startChat`.
pub fn conversation_id(result: &Json) -> (r: Result<String, ApiError>)
    ensures
        r matches Ok(id) ==> result@.at("id"@) == JsonView::Text(id@),
        r matches Err(e) ==> result@.at("id"@).text() is None && e@
            == ApiErrorView::NoConversationId,
{
    match result.text_at("id") {
        Some(id) => Ok(id.to_owned()),
        None => Err(ApiError::NoConversationId),
    }
}

/// The message id in the result of `botCreateDraft`.
pub fn draft_id(result: &Json) -> (r: Result<String, ApiError>)
    ensures
        r matches Ok(id) ==> result@.at("id"@) == JsonView::Text(id@),
        r matches Err(e) ==> result@.at("id"@).text() is None && e@ == ApiErrorView::NoDraftId,
{
    match result.text_at("id") {
        Some(id) => Ok(id.to_owned()),
        None => Err(ApiError::NoDraftId),
    }
}

/// The id in what came back for a call that gives one, and the error where there
/// is none.
pub open spec fn id_answered(
    method: Seq<char>,
    reply: ReplyView,
    missing: ApiErrorView,
) -> Result<Seq<char>, ApiErrorView> {
    match answered(method, reply) {
        Ok(result) => match result.at("id"@) {
            JsonView::Text(id) => Ok(id),
            _ => Err(missing),
        },
        Err(e) => Err(e),
    }
}

impl ApiCall {
    /// The message id, from what came back for this call of `botCreateDraft`.
    pub fn draft(&self, reply: Reply) -> (r: Result<String, ApiError>)
        ensures
            r matches Ok(id) ==> id_answered(self@.method, reply@, ApiErrorView::NoDraftId) == Ok::<
                _,
                ApiErrorView,
            >(id@),
            r matches Err(e) ==> id_answered(self@.method, reply@, ApiErrorView::NoDraftId)
                == Err::<Seq<char>, _>(e@),
    {
        match self.answer(reply) {
            Ok(result) => draft_id(&result),
            Err(e) => Err(e),
        }
    }

    /// The conversation id, from what came back for this call of `startChat`.
    pub fn conversation(&self, reply: Reply) -> (r: Result<String, ApiError>)
        ensures
            r matches Ok(id) ==> id_answered(self@.method, reply@, ApiErrorView::NoConversationId)
                == Ok::<_, ApiErrorView>(id@),
            r matches Err(e) ==> id_answered(self@.method, reply@, ApiErrorView::NoConversationId)
                == Err::<Seq<char>, _>(e@),
    {
        match self.answer(reply) {
            Ok(result) => conversation_id(&result),
            Err(e) => Err(e),
        }
    }
}

/// An object without entries.
fn no_entries() -> (j: Json)
    ensures
        j@ == JsonView::Object(Seq::empty()),
{
    let j = Json::Object(Vec::new());
    assert(j@->Object_0 =~= Seq::empty());
    j
}

/// An object with one entry.
fn one_entry(key: &str, value: Json) -> (j: Json)
    ensures
        j@ == JsonView::Object(seq![(key@, value@)]),
{
    let j = Json::Object(vec![(key.to_owned(), value)]);
    assert(j@->Object_0 =~= seq![(key@, value@)]);
    j
}

/// An object with two entries.
fn two_entries(key1: &str, value1: Json, key2: &str, value2: Json) -> (j: Json)
    ensures
        j@ == JsonView::Object(seq![(key1@, value1@), (key2@, value2@)]),
{
    let j = Json::Object(vec![(key1.to_owned(), value1), (key2.to_owned(), value2)]);
    assert(j@->Object_0 =~= seq![(key1@, value1@), (key2@, value2@)]);
    j
}

/// A list with one item.
fn one_item(value: Json) -> (j: Json)
    ensures
        j@ == JsonView::Array(seq![value@]),
{
    let j = Json::Array(vec![value]);
    assert(j@->Array_0 =~= seq![value@]);
    j
}

/// An account on a Mafold server.
#[derive(Debug, PartialEq)]
pub struct Client {
    pub base: String,
    pub token: String,
}

/// The model of a [`Client`].
pub struct ClientView {
    pub base: Seq<char>,
    pub token: Seq<char>,
}

impl View for Client {
    type V = ClientView;

    open spec fn view(&self) -> ClientView {
        ClientView { base: self.base@, token: self.token@ }
    }
}

impl Clone for Client {
    fn clone(&self) -> (r: Client)
        ensures
            r@ == self@,
    {
        Client { base: self.base.clone(), token: self.token.clone() }
    }
}

/// The account that a token belongs to, on the server at an address.
pub open spec fn account(base: Seq<char>, token: Seq<char>) -> ClientView {
    ClientView { base, token }
}

/// The body of a request that names a chat.
pub open spec fn chat_body(chat_id: Seq<char>) -> JsonView {
    JsonView::Object(seq![("chat_id"@, JsonView::Text(chat_id))])
}

/// The body of a request that appends to a message.
pub open spec fn delta_body(message_id: Seq<char>, delta: Seq<char>) -> JsonView {
    JsonView::Object(
        seq![("message_id"@, JsonView::Text(message_id)), ("delta"@, JsonView::Text(delta))],
    )
}

/// The body of a request that names a message.
pub open spec fn message_body(message_id: Seq<char>) -> JsonView {
    JsonView::Object(seq![("message_id"@, JsonView::Text(message_id))])
}

/// What a chat argument stands for.
#[derive(Debug, PartialEq)]
pub enum Chat {
    /// The conversation of this id.
    Known(String),
    /// The direct conversation that this call opens or finds.
    Start(ApiCall),
}

/// The model of a [`Chat`].
pub enum ChatView {
    Known(Seq<char>),
    Start(ApiCallView),
}

impl View for Chat {
    type V = ChatView;

    open spec fn view(&self) -> ChatView {
        match self {
            Chat::Known(id) => ChatView::Known(id@),
            Chat::Start(call) => ChatView::Start(call@),
        }
    }
}

/// Whether a character is a hexadecimal digit of ASCII.
pub open spec fn hex_digit(c: char) -> bool {
    '0' <= c <= '9' || 'a' <= c <= 'f' || 'A' <= c <= 'F'
}

/// Whether position `i` of a UUID holds a hyphen.
pub open spec fn hyphen_due(i: int) -> bool {
    i == 8 || i == 13 || i == 18 || i == 23
}

/// Whether a text has the shape of a conversation id (a UUID): groups of 8, 4, 4,
/// 4 and 12 hexadecimal digits with hyphens between them.
pub open spec fn id_shaped(s: Seq<char>) -> bool {
    &&& s.len() == 36
    &&& forall|i: int|
        0 <= i < 36 ==> if hyphen_due(i) {
            #[trigger] s[i] == '-'
        } else {
            hex_digit(s[i])
        }
}

/// Whether a text has the shape of a conversation id.
pub fn is_conversation_id(s: &str) -> (r: bool)
    ensures
        r == id_shaped(s@),
{
    let v = characters(s);
    if v.len() != 36 {
        return false;
    }
    let mut i: usize = 0;
    while i < 36
        invariant
            v@ == s@,
            v@.len() == 36,
            i <= 36,
            forall|k: int|
                0 <= k < i ==> if hyphen_due(k) {
                    #[trigger] s@[k] == '-'
                } else {
                    hex_digit(s@[k])
                },
        decreases 36 - i,
    {
        let c = v[i];
        assert(s@[i as int] == c);
        if i == 8 || i == 13 || i == 18 || i == 23 {
            if c != '-' {
                return false;
            }
        } else if !(('0' <= c && c <= '9') || ('a' <= c && c <= 'f') || ('A' <= c && c <= 'F')) {
            return false;
        }
        i += 1;
    }
    true
}

impl ClientView {
    /// The request that calls `method`.
    pub open spec fn call(self, method: Seq<char>, body: JsonView) -> ApiCallView {
        ApiCallView { method, url: self.base + "/api/"@ + method, token: self.token, body }
    }

    /// What a chat argument stands for, without the `@` before it: the
    /// conversation of that id if it is shaped like one, else the direct
    /// conversation with the user of that name.
    pub open spec fn chat(self, arg: Seq<char>) -> ChatView {
        let name = stripped(arg, '@');
        if id_shaped(name) {
            ChatView::Known(name)
        } else {
            ChatView::Start(
                self.call(
                    "startChat"@,
                    JsonView::Object(
                        seq![("user_ids"@, JsonView::Array(seq![JsonView::Text(name)]))],
                    ),
                ),
            )
        }
    }

    /// The request that asks who this account is.
    pub open spec fn asks_for_itself(self) -> ApiCallView {
        self.call("getMe"@, JsonView::Object(Seq::empty()))
    }

    /// The request that asks for the conversations of this account.
    pub open spec fn asks_for_chats(self) -> ApiCallView {
        self.call("getChats"@, JsonView::Object(Seq::empty()))
    }

    /// The request that sends a message to a conversation.
    pub open spec fn sends(self, chat_id: Seq<char>, text: Seq<char>) -> ApiCallView {
        self.call(
            "sendMessage"@,
            JsonView::Object(
                seq![("chat_id"@, JsonView::Text(chat_id)), ("text"@, JsonView::Text(text))],
            ),
        )
    }

    /// The request that an action of a turn makes, if it makes one.
    pub open spec fn request(self, action: ActionView) -> Option<ApiCallView> {
        match action {
            ActionView::CreateDraft(chat_id) => Some(
                self.call("botCreateDraft"@, chat_body(chat_id)),
            ),
            ActionView::Append(message_id, text) => Some(
                self.call("botAppendDelta"@, delta_body(message_id, text)),
            ),
            ActionView::Finalize(message_id) => Some(
                self.call("botFinalize"@, message_body(message_id)),
            ),
            _ => None,
        }
    }

    /// Where events are listened for.
    pub open spec fn ws_url(self) -> Seq<char> {
        let secure = replaced_first(self.base, "https://"@, "wss://"@);
        replaced_first(secure, "http://"@, "ws://"@) + "/api/ws?token="@ + self.token
    }
}

impl Client {
    /// The account that `token` belongs to, on the server at `base`.
    pub fn new(base: String, token: String) -> (r: Client)
        ensures
            r@ == account(base@, token@),
            r.base == base,
            r.token == token,
    {
        Client { base, token }
    }

    /// The request that calls `method`: a post to `/api/<method>`.
    pub fn post(&self, method: &str, body: Json) -> (r: ApiCall)
        ensures
            r@ == self@.call(method@, body@),
    {
        let url = self.base.clone().concat("/api/").concat(method);
        ApiCall { method: method.to_owned(), url, token: self.token.clone(), body }
    }

    /// Asks who this account is.
    pub fn me(&self) -> (r: ApiCall)
        ensures
            r@ == self@.asks_for_itself(),
            r@ == self@.call("getMe"@, JsonView::Object(Seq::empty())),
    {
        self.post("getMe", no_entries())
    }

    /// Asks for the conversations of this account.
    pub fn chats(&self) -> (r: ApiCall)
        ensures
            r@ == self@.asks_for_chats(),
            r@ == self@.call("getChats"@, JsonView::Object(Seq::empty())),
    {
        self.post("getChats", no_entries())
    }

    /// Sends a message to a conversation.
    pub fn send(&self, chat_id: &str, text: &str) -> (r: ApiCall)
        ensures
            r@ == self@.sends(chat_id@, text@),
            r@ == self@.call(
                "sendMessage"@,
                JsonView::Object(
                    seq![
                        ("chat_id"@, JsonView::Text(chat_id@)),
                        ("text"@, JsonView::Text(text@)),
                    ],
                ),
            ),
            r.body@.at("chat_id"@) == JsonView::Text(chat_id@),
            r.body@.at("text"@) == JsonView::Text(text@),
    {
        proof {
            law_messages_are_sent_as_they_are(self@, chat_id@, text@);
        }
        self.post(
            "sendMessage",
            two_entries("chat_id", Json::from_text(chat_id), "text", Json::from_text(text)),
        )
    }

    /// Resolves a chat argument: a conversation UUID is used as it is; anything
    /// else is taken for a username (`@name` or `name`), and its conversation is
    /// opened or found.
    pub fn resolve_chat(&self, arg: &str) -> (r: Chat)
        ensures
            r@ == self@.chat(arg@),
    {
        let name = strip_leading(arg, '@');
        if is_conversation_id(name) {
            return Chat::Known(name.to_owned());
        }
        Chat::Start(
            self.post("startChat", one_entry("user_ids", one_item(Json::from_text(name)))),
        )
    }

    /// Opens a draft message in a conversation.
    pub fn create_draft(&self, chat_id: &str) -> (r: ApiCall)
        ensures
            r@ == self@.call("botCreateDraft"@, chat_body(chat_id@)),
            r.body@.at("chat_id"@) == JsonView::Text(chat_id@),
    {
        self.post("botCreateDraft", one_entry("chat_id", Json::from_text(chat_id)))
    }

    /// Appends to a draft message.
    pub fn append_delta(&self, message_id: &str, delta: &str) -> (r: ApiCall)
        ensures
            r@ == self@.call("botAppendDelta"@, delta_body(message_id@, delta@)),
            r.body@.at("message_id"@) == JsonView::Text(message_id@),
            r.body@.at("delta"@) == JsonView::Text(delta@),
    {
        proof {
            law_bodies_carry_their_texts(Seq::empty(), message_id@, delta@);
        }
        self.post(
            "botAppendDelta",
            two_entries(
                "message_id",
                Json::from_text(message_id),
                "delta",
                Json::from_text(delta),
            ),
        )
    }

    /// Closes a draft message.
    pub fn finalize(&self, message_id: &str) -> (r: ApiCall)
        ensures
            r@ == self@.call("botFinalize"@, message_body(message_id@)),
            r.body@.at("message_id"@) == JsonView::Text(message_id@),
    {
        self.post("botFinalize", one_entry("message_id", Json::from_text(message_id)))
    }

    /// The request that an action of a turn makes, if it makes one.
    pub fn request(&self, action: &Action) -> (r: Option<ApiCall>)
        ensures
            r is Some == self@.request(action@) is Some,
            r matches Some(call) ==> self@.request(action@) == Some(call@),
    {
        match action {
            Action::CreateDraft(chat_id) => Some(self.create_draft(chat_id.as_str())),
            Action::Append(message_id, text) => Some(
                self.append_delta(message_id.as_str(), text.as_str()),
            ),
            Action::Finalize(message_id) => Some(self.finalize(message_id.as_str())),
            _ => None,
        }
    }

    /// Where events are listened for.
    pub fn ws_url(&self) -> (r: String)
        ensures
            r@ == self@.ws_url(),
    {
        let secure = replace_first(self.base.as_str(), "https://", "wss://");
        let ws = replace_first(secure.as_str(), "http://", "ws://");
        ws.concat("/api/ws?token=").concat(self.token.as_str())
    }
}

/// An `@` before a chat argument makes no difference.
pub proof fn law_at_sign_is_optional(client: ClientView, arg: Seq<char>)
    ensures
        client.chat(seq!['@'] + arg) == client.chat(arg),
{
    assert((seq!['@'] + arg).drop_first() == arg);
    assert((seq!['@'] + arg)[0] == '@');
}

/// A conversation id is used as it is.
pub proof fn law_conversation_id_is_used_as_it_is(client: ClientView, id: Seq<char>)
    requires
        id_shaped(id),
    ensures
        client.chat(id) == ChatView::Known(id),
{
    assert(hex_digit(id[0]));
}

proof fn lemma_replaced_at_start(pat: Seq<char>, rest: Seq<char>, to: Seq<char>)
    ensures
        replaced_first(pat + rest, pat, to) == to + rest,
{
    let s = pat + rest;
    assert(s.subrange(0, pat.len() as int) == pat);
    assert(first_at(s, pat, 0));
    let i = choose|i: int| first_at(s, pat, i);
    lemma_first_at_unique(s, pat, 0, i);
    assert(s.subrange(0, 0) + to + s.subrange(pat.len() as int, s.len() as int) == to + rest);
}

proof fn lemma_not_replaced(s: Seq<char>, pat: Seq<char>, to: Seq<char>)
    requires
        forall|k: int| !stands_at(s, pat, k),
    ensures
        replaced_first(s, pat, to) == s,
{
    assert forall|k: int| !first_at(s, pat, k) by {
        assert(!stands_at(s, pat, k));
    }
}

proof fn lemma_stands_only_after(head: Seq<char>, rest: Seq<char>, pat: Seq<char>)
    requires
        pat.len() > 0,
        forall|k: int| !stands_at(rest, pat, k),
        forall|k: int| 0 <= k < head.len() ==> !stands_at(head + rest, pat, k),
    ensures
        forall|k: int| !stands_at(head + rest, pat, k),
{
    let s = head + rest;
    assert forall|k: int| !stands_at(s, pat, k) by {
        if stands_at(s, pat, k) {
            let l = k - head.len();
            assert(rest.subrange(l, l + pat.len()) =~= s.subrange(k, k + pat.len()));
            assert(stands_at(rest, pat, l));
        }
    }
}

/// On a server that is reached over `https`, events are listened for over `wss`,
/// on that server and with the token.
pub proof fn law_https_becomes_wss(client: ClientView, rest: Seq<char>)
    requires
        client.base == "https://"@ + rest,
        forall|k: int| !stands_at(rest, "http://"@, k),
    ensures
        client.ws_url() == "wss://"@ + rest + "/api/ws?token="@ + client.token,
{
    reveal_strlit("https://");
    reveal_strlit("http://");
    reveal_strlit("wss://");
    lemma_replaced_at_start("https://"@, rest, "wss://"@);
    let s = "wss://"@ + rest;
    assert forall|k: int| 0 <= k < 6 implies !stands_at(s, "http://"@, k) by {
        if stands_at(s, "http://"@, k) {
            assert(s.subrange(k, k + 7)[0] == 'h');
        }
    }
    lemma_stands_only_after("wss://"@, rest, "http://"@);
    lemma_not_replaced(s, "http://"@, "ws://"@);
}

/// On a server that is reached over `http`, events are listened for over `ws`, on
/// that server and with the token.
pub proof fn law_http_becomes_ws(client: ClientView, rest: Seq<char>)
    requires
        client.base == "http://"@ + rest,
        forall|k: int| !stands_at(rest, "https://"@, k),
    ensures
        client.ws_url() == "ws://"@ + rest + "/api/ws?token="@ + client.token,
{
    reveal_strlit("https://");
    reveal_strlit("http://");
    let s = "http://"@ + rest;
    assert forall|k: int| 0 <= k < 7 implies !stands_at(s, "https://"@, k) by {
        if stands_at(s, "https://"@, k) {
            assert(s.subrange(k, k + 8)[0] == 'h');
            assert(s.subrange(k, k + 8)[4] == 's');
        }
    }
    lemma_stands_only_after("http://"@, rest, "https://"@);
    lemma_not_replaced(s, "https://"@, "wss://"@);
    lemma_replaced_at_start("http://"@, rest, "ws://"@);
}

/// On a server that is reached otherwise, events are listened for at the same
/// address.
pub proof fn law_other_addresses_stay(client: ClientView)
    requires
        forall|k: int|
            0 <= k <= client.base.len() - 8 ==> #[trigger] client.base.subrange(k, k + 8)
                != "https://"@,
        forall|k: int|
            0 <= k <= client.base.len() - 7 ==> #[trigger] client.base.subrange(k, k + 7)
                != "http://"@,
    ensures
        client.ws_url() == client.base + "/api/ws?token="@ + client.token,
{
    reveal_strlit("https://");
    reveal_strlit("http://");
    law_without_an_occurrence_nothing_is_replaced(client.base, "https://"@, "wss://"@);
    law_without_an_occurrence_nothing_is_replaced(client.base, "http://"@, "ws://"@);
}

/// Wherever the schemes stand in the address of the server: the first `https://` in
/// it becomes `wss://`, then the first `http://` in what that gives becomes `ws://`;
/// the path of the event stream and the token follow.
pub proof fn law_schemes_are_replaced_wherever_they_stand(client: ClientView)
    ensures
        client.ws_url() == replaced_first(
            replaced_first(client.base, "https://"@, "wss://"@),
            "http://"@,
            "ws://"@,
        ) + "/api/ws?token="@ + client.token,
{
}

proof fn lemma_second_entry(a: (Seq<char>, JsonView), b: (Seq<char>, JsonView))
    requires
        a.0 != b.0,
    ensures
        JsonView::Object(seq![a, b]).at(b.0) == b.1,
{
    law_first_entry_counts(seq![a, b], b.0, 1);
}

/// A request goes to the address of its method on the server, with the token of the
/// account and the body that is posted.
pub proof fn law_requests_go_to_their_method(
    client: ClientView,
    method: Seq<char>,
    body: JsonView,
)
    ensures
        client.call(method, body).method == method,
        client.call(method, body).url == client.base + "/api/"@ + method,
        client.call(method, body).token == client.token,
        client.call(method, body).body == body,
{
}

/// The bodies of the requests that write into a conversation carry their texts
/// character by character, and nothing else.
pub proof fn law_bodies_carry_their_texts(
    chat_id: Seq<char>,
    message_id: Seq<char>,
    delta: Seq<char>,
)
    ensures
        chat_body(chat_id).at("chat_id"@) == JsonView::Text(chat_id),
        chat_body(chat_id)->Object_0.len() == 1,
        delta_body(message_id, delta).at("message_id"@) == JsonView::Text(message_id),
        delta_body(message_id, delta).at("delta"@) == JsonView::Text(delta),
        delta_body(message_id, delta)->Object_0.len() == 2,
        message_body(message_id).at("message_id"@) == JsonView::Text(message_id),
        message_body(message_id)->Object_0.len() == 1,
{
    reveal_strlit("message_id");
    reveal_strlit("delta");
    assert("message_id"@.len() != "delta"@.len());
    lemma_second_entry(
        ("message_id"@, JsonView::Text(message_id)),
        ("delta"@, JsonView::Text(delta)),
    );
}

/// A message is sent to the very conversation that is given, character by character; what
/// is only asked for goes out with an empty object.
pub proof fn law_messages_are_sent_as_they_are(
    client: ClientView,
    chat_id: Seq<char>,
    text: Seq<char>,
)
    ensures
        client.sends(chat_id, text).method == "sendMessage"@,
        client.sends(chat_id, text).url == client.base + "/api/"@ + "sendMessage"@,
        client.sends(chat_id, text).token == client.token,
        client.sends(chat_id, text).body.at("chat_id"@) == JsonView::Text(chat_id),
        client.sends(chat_id, text).body.at("text"@) == JsonView::Text(text),
        client.sends(chat_id, text).body->Object_0.len() == 2,
        client.asks_for_itself().method == "getMe"@,
        client.asks_for_itself().url == client.base + "/api/"@ + "getMe"@,
        client.asks_for_itself().token == client.token,
        client.asks_for_itself().body == JsonView::Object(Seq::empty()),
        client.asks_for_chats().method == "getChats"@,
        client.asks_for_chats().url == client.base + "/api/"@ + "getChats"@,
        client.asks_for_chats().token == client.token,
        client.asks_for_chats().body == JsonView::Object(Seq::empty()),
{
    reveal_strlit("chat_id");
    reveal_strlit("text");
    assert("chat_id"@.len() != "text"@.len());
    lemma_second_entry(("chat_id"@, JsonView::Text(chat_id)), ("text"@, JsonView::Text(text)));
}

/// An action that opens a draft, appends or finalizes makes the request of that name
/// with the very conversation, message and text of the action; no other action makes
/// a request.
pub proof fn law_requests_say_what_the_actions_say(client: ClientView, action: ActionView)
    ensures
        action matches ActionView::CreateDraft(chat_id) ==> {
            &&& client.request(action) matches Some(call)
            &&& call.method == "botCreateDraft"@
            &&& call.url == client.base + "/api/"@ + "botCreateDraft"@
            &&& call.token == client.token
            &&& call.body.at("chat_id"@) == JsonView::Text(chat_id)
        },
        action matches ActionView::Append(message_id, text) ==> {
            &&& client.request(action) matches Some(call)
            &&& call.method == "botAppendDelta"@
            &&& call.url == client.base + "/api/"@ + "botAppendDelta"@
            &&& call.token == client.token
            &&& call.body.at("message_id"@) == JsonView::Text(message_id)
            &&& call.body.at("delta"@) == JsonView::Text(text)
        },
        action matches ActionView::Finalize(message_id) ==> {
            &&& client.request(action) matches Some(call)
            &&& call.method == "botFinalize"@
            &&& call.url == client.base + "/api/"@ + "botFinalize"@
            &&& call.token == client.token
            &&& call.body.at("message_id"@) == JsonView::Text(message_id)
        },
        client.request(action) is None <==> !(action is CreateDraft || action is Append
            || action is Finalize),
{
    match action {
        ActionView::CreateDraft(chat_id) => law_bodies_carry_their_texts(chat_id, chat_id, chat_id),
        ActionView::Append(id, text) => law_bodies_carry_their_texts(id, id, text),
        ActionView::Finalize(id) => law_bodies_carry_their_texts(id, id, id),
        _ => {},
    }
}

/// The text that a request appends: the one under `delta` if it is a call of
/// `botAppendDelta`.
pub open spec fn delta_of(call: Option<ApiCallView>) -> Seq<char> {
    match call {
        Some(call) => if call.method == "botAppendDelta"@ {
            match call.body.at("delta"@) {
                JsonView::Text(text) => text,
                _ => Seq::empty(),
            }
        } else {
            Seq::empty()
        },
        None => Seq::empty(),
    }
}

/// The texts that the requests of a number of actions append, one after the other.
pub open spec fn deltas(client: ClientView, deeds: Seq<ActionView>) -> Seq<char>
    decreases deeds.len(),
{
    if deeds.len() == 0 {
        Seq::empty()
    } else {
        deltas(client, deeds.drop_last()) + delta_of(client.request(deeds.last()))
    }
}

proof fn lemma_deltas_are_appended(client: ClientView, deeds: Seq<ActionView>)
    ensures
        deltas(client, deeds) == appended(deeds),
    decreases deeds.len(),
{
    if deeds.len() > 0 {
        lemma_deltas_are_appended(client, deeds.drop_last());
        let deed = deeds.last();
        law_requests_say_what_the_actions_say(client, deed);
        reveal_strlit("botAppendDelta");
        reveal_strlit("botCreateDraft");
        reveal_strlit("botFinalize");
        assert("botAppendDelta"@[3] == 'A' && "botCreateDraft"@[3] == 'C');
        assert("botAppendDelta"@.len() != "botFinalize"@.len());
        assert(delta_of(client.request(deed)) == appended_by(deed));
    }
}

/// A reply that does not fail arrives at the server complete and unchanged: when the
/// turn is finished, the texts under `delta` of all its requests, one after the other,
/// are what the assistant said; if it did not say anything, a notice of that.
pub proof fn law_reply_arrives_in_the_requests(
    client: ClientView,
    assistant: AssistantView,
    chat_id: Seq<char>,
    workdir: Seq<char>,
    prompt: Seq<char>,
    es: Seq<EventView>,
)
    requires
        fresh(assistant, chat_id, workdir, prompt).after_all(es).phase is Finished,
        fresh(assistant, chat_id, workdir, prompt).failed(es) is None,
    ensures
        ({
            let t = fresh(assistant, chat_id, workdir, prompt);
            deltas(client, t.deeds(es)) == match t.said(es) {
                Some(text) => text,
                None => silence_notice(),
            }
        }),
{
    law_reply_arrives_unchanged(assistant, chat_id, workdir, prompt, es);
    lemma_deltas_are_appended(client, fresh(assistant, chat_id, workdir, prompt).deeds(es));
}

/// A failure arrives at the server: when the turn is finished, the texts under `delta`
/// of all its requests are a beginning of what the assistant said, and all of it unless
/// its output broke off, then the notice of the failure.
pub proof fn law_failure_arrives_in_the_requests(
    client: ClientView,
    assistant: AssistantView,
    chat_id: Seq<char>,
    workdir: Seq<char>,
    prompt: Seq<char>,
    es: Seq<EventView>,
)
    requires
        fresh(assistant, chat_id, workdir, prompt).after_all(es).phase is Finished,
        fresh(assistant, chat_id, workdir, prompt).failed(es) is Some,
    ensures
        ({
            let t = fresh(assistant, chat_id, workdir, prompt);
            exists|passed: Seq<char>|
                {
                    &&& passed.is_prefix_of(words(t.said(es)))
                    &&& deltas(client, t.deeds(es)) == #[trigger] (passed + failure_notice(
                        t.failed(es)->0,
                    ))
                    &&& !broke_off(es) ==> passed == words(t.said(es))
                }
        }),
{
    law_failure_is_told(assistant, chat_id, workdir, prompt, es);
    lemma_deltas_are_appended(client, fresh(assistant, chat_id, workdir, prompt).deeds(es));
}

/// The first request of a finished turn opens a draft in its conversation, the last one
/// finalizes that draft, and every other one appends to it.
pub proof fn law_draft_is_finalized_by_request(
    client: ClientView,
    assistant: AssistantView,
    chat_id: Seq<char>,
    workdir: Seq<char>,
    prompt: Seq<char>,
    es: Seq<EventView>,
    i: int,
)
    requires
        fresh(assistant, chat_id, workdir, prompt).after_all(es).phase is Finished,
    ensures
        ({
            let id = fresh(assistant, chat_id, workdir, prompt).after_all(es).message_id;
            let deeds = fresh(assistant, chat_id, workdir, prompt).deeds(es);
            &&& (client.request(deeds.first()) matches Some(call) && call.method
                == "botCreateDraft"@ && call.body.at("chat_id"@) == JsonView::Text(chat_id))
            &&& (client.request(deeds.last()) matches Some(call) && call.method == "botFinalize"@
                && call.body.at("message_id"@) == JsonView::Text(id))
            &&& 0 < i < deeds.len() - 1 ==> (client.request(deeds[i]) matches Some(call)
                ==> call.method == "botAppendDelta"@ && call.body.at("message_id"@)
                == JsonView::Text(id))
        }),
{
    let deeds = fresh(assistant, chat_id, workdir, prompt).deeds(es);
    law_draft_is_finalized(assistant, chat_id, workdir, prompt, es);
    law_requests_say_what_the_actions_say(client, deeds.first());
    law_requests_say_what_the_actions_say(client, deeds.last());
    if 0 < i < deeds.len() - 1 {
        law_requests_say_what_the_actions_say(client, deeds[i]);
    }
}

/// Where an answer is JSON whose `ok` is not false, the result of the call is the value
/// under `result`, whatever it is, and `Null` if there is none.
pub proof fn law_result_is_handed_out_as_it_is(method: Seq<char>, body: Seq<u8>, v: JsonView)
    requires
        bytes_json(body) == Ok::<JsonView, Seq<char>>(v),
        v.at("ok"@) != JsonView::Bool(false),
    ensures
        opened(method, v) is Ok,
        answered(method, ReplyView::Body(body)) is Ok,
        v.get("result"@) matches Some(result) ==> opened(method, v)->Ok_0 == result && answered(
            method,
            ReplyView::Body(body),
        )->Ok_0 == result,
        v.get("result"@) is None ==> opened(method, v)->Ok_0 == JsonView::Null && answered(
            method,
            ReplyView::Body(body),
        )->Ok_0 == JsonView::Null,
{
}

/// Where an answer is JSON whose `ok` is false, the call is refused in the name of its
/// method, with the description that the answer gives, if it gives one.
pub proof fn law_refusal_is_handed_out_with_its_description(
    method: Seq<char>,
    body: Seq<u8>,
    v: JsonView,
    description: Seq<char>,
)
    requires
        bytes_json(body) == Ok::<JsonView, Seq<char>>(v),
        v.at("ok"@) == JsonView::Bool(false),
    ensures
        opened(method, v) == answered(method, ReplyView::Body(body)),
        v.at("description"@) == JsonView::Text(description) ==> answered(
            method,
            ReplyView::Body(body),
        ) == Err::<JsonView, _>(ApiErrorView::Refused(method, description)),
        !(v.at("description"@) is Text) ==> answered(method, ReplyView::Body(body)) == Err::<
            JsonView,
            _,
        >(ApiErrorView::Refused(method, "error"@)),
{
}

/// An exchange that failed, and an answer that is no JSON, are told in the name of the
/// method, with the reason.
pub proof fn law_failed_exchange_is_told(
    method: Seq<char>,
    why: Seq<char>,
    body: Seq<u8>,
)
    ensures
        answered(method, ReplyView::NotAnswered(why)) == Err::<JsonView, _>(
            ApiErrorView::NotAnswered(method, why),
        ),
        answered(method, ReplyView::NotRead(why)) == Err::<JsonView, _>(
            ApiErrorView::NotJson(method, why),
        ),
        bytes_json(body) == Err::<JsonView, Seq<char>>(why) ==> answered(
            method,
            ReplyView::Body(body),
        ) == Err::<JsonView, _>(ApiErrorView::NotJson(method, why)),
{
}

/// The id that a call gives is the text under `id` in its result; where that is no text,
/// the call gives the error for a missing id; an error of the call stays what it is.
pub proof fn law_id_is_that_of_the_answer(
    method: Seq<char>,
    reply: ReplyView,
    body: Seq<u8>,
    v: JsonView,
    missing: ApiErrorView,
    id: Seq<char>,
)
    ensures
        reply == ReplyView::Body(body) && bytes_json(body) == Ok::<JsonView, Seq<char>>(v) && v.at(
            "ok"@,
        ) != JsonView::Bool(false) ==> {
            &&& id_answered(method, reply, missing) == Ok::<_, ApiErrorView>(id) <==> v.at(
                "result"@,
            ).at("id"@) == JsonView::Text(id)
            &&& !(v.at("result"@).at("id"@) is Text) ==> id_answered(method, reply, missing)
                == Err::<Seq<char>, _>(missing)
        },
        answered(method, reply) matches Err(e) ==> id_answered(method, reply, missing) == Err::<
            Seq<char>,
            _,
        >(e),
{
}

/// What the user is told of an error names the method, and of a refusal its description.
pub proof fn law_messages_name_the_method(method: Seq<char>, why: Seq<char>)
    ensures
        ApiErrorView::NotAnswered(method, why).message() == method + " request failed"@,
        ApiErrorView::NotJson(method, why).message() == method + " returned non-JSON"@,
        ApiErrorView::Refused(method, why).message() == method + ": "@ + why,
{
}

/// Whether a text consists of hexadecimal digits.
pub open spec fn all_hex(s: Seq<char>) -> bool {
    forall|i: int|
        0 <= i < s.len() ==> '0' <= #[trigger] s[i] <= '9' || 'a' <= s[i] <= 'f' || 'A' <= s[i]
            <= 'F'
}

/// Whether five groups are those of a UUID.
pub open spec fn uuid_groups(
    a: Seq<char>,
    b: Seq<char>,
    c: Seq<char>,
    d: Seq<char>,
    e: Seq<char>,
) -> bool {
    &&& a.len() == 8 && b.len() == 4 && c.len() == 4 && d.len() == 4 && e.len() == 12
    &&& all_hex(a) && all_hex(b) && all_hex(c) && all_hex(d) && all_hex(e)
}

/// Five groups with hyphens between them.
pub open spec fn hyphenated(
    a: Seq<char>,
    b: Seq<char>,
    c: Seq<char>,
    d: Seq<char>,
    e: Seq<char>,
) -> Seq<char> {
    a + seq!['-'] + b + seq!['-'] + c + seq!['-'] + d + seq!['-'] + e
}

/// The groups of a UUID, with hyphens between them, are a conversation id and are used as
/// they are.
pub proof fn law_uuid_is_a_conversation_id(
    client: ClientView,
    a: Seq<char>,
    b: Seq<char>,
    c: Seq<char>,
    d: Seq<char>,
    e: Seq<char>,
)
    requires
        uuid_groups(a, b, c, d, e),
    ensures
        client.chat(hyphenated(a, b, c, d, e)) == ChatView::Known(hyphenated(a, b, c, d, e)),
{
    let s = hyphenated(a, b, c, d, e);
    assert forall|i: int| 0 <= i < 36 implies if hyphen_due(i) {
        #[trigger] s[i] == '-'
    } else {
        hex_digit(s[i])
    } by {
        if i < 8 {
            assert(s[i] == a[i]);
        } else if 8 < i < 13 {
            assert(s[i] == b[i - 9]);
        } else if 13 < i < 18 {
            assert(s[i] == c[i - 14]);
        } else if 18 < i < 23 {
            assert(s[i] == d[i - 19]);
        } else if 23 < i {
            assert(s[i] == e[i - 24]);
        }
    }
    law_conversation_id_is_used_as_it_is(client, s);
}

/// A chat argument that is used as a conversation id is, without the `@` before it, made
/// of the groups of a UUID with hyphens between them. Anything else is a user name: a
/// chat with the user of exactly that name is started.
pub proof fn law_anything_but_a_uuid_is_a_user_name(client: ClientView, arg: Seq<char>)
    ensures
        client.chat(arg) matches ChatView::Known(id) ==> {
            &&& id == stripped(arg, '@')
            &&& id.len() == 36
            &&& uuid_groups(
                id.subrange(0, 8),
                id.subrange(9, 13),
                id.subrange(14, 18),
                id.subrange(19, 23),
                id.subrange(24, 36),
            )
            &&& id == hyphenated(
                id.subrange(0, 8),
                id.subrange(9, 13),
                id.subrange(14, 18),
                id.subrange(19, 23),
                id.subrange(24, 36),
            )
        },
        client.chat(arg) matches ChatView::Start(call) ==> {
            &&& call.method == "startChat"@
            &&& call.url == client.base + "/api/"@ + "startChat"@
            &&& call.token == client.token
            &&& call.body == JsonView::Object(
                seq![
                    ("user_ids"@, JsonView::Array(seq![JsonView::Text(stripped(arg, '@'))])),
                ],
            )
        },
{
    let id = stripped(arg, '@');
    if id_shaped(id) {
        assert forall|i: int| 0 <= i < 36 && !hyphen_due(i) implies hex_digit(
            #[trigger] id[i],
        ) by {}
        assert(id[8] == '-' && id[13] == '-' && id[18] == '-' && id[23] == '-');
        let s = hyphenated(
            id.subrange(0, 8),
            id.subrange(9, 13),
            id.subrange(14, 18),
            id.subrange(19, 23),
            id.subrange(24, 36),
        );
        assert(s =~= id);
    }
}

/// Requests, replies, errors, accounts and chats are seen field by field as they are.
pub proof fn law_requests_and_replies_are_seen_as_they_are(
    call: ApiCall,
    reply: Reply,
    e: ApiError,
    client: Client,
    chat: Chat,
)
    ensures
        call@.method == call.method@ && call@.url == call.url@,
        call@.token == call.token@ && call@.body == call.body@,
        client@.base == client.base@ && client@.token == client.token@,
        reply matches Reply::NotAnswered(why) ==> reply@ == ReplyView::NotAnswered(why@),
        reply matches Reply::NotRead(why) ==> reply@ == ReplyView::NotRead(why@),
        reply matches Reply::Body(body) ==> reply@ == ReplyView::Body(body@),
        e matches ApiError::NotAnswered(m, why) ==> e@ == ApiErrorView::NotAnswered(m@, why@),
        e matches ApiError::NotJson(m, why) ==> e@ == ApiErrorView::NotJson(m@, why@),
        e matches ApiError::Refused(m, why) ==> e@ == ApiErrorView::Refused(m@, why@),
        e is NoConversationId ==> e@ == ApiErrorView::NoConversationId,
        e is NoDraftId ==> e@ == ApiErrorView::NoDraftId,
        chat matches Chat::Known(id) ==> chat@ == ChatView::Known(id@),
        chat matches Chat::Start(start) ==> chat@ == ChatView::Start(start@),
{
}

/// An account is asked on the very server that is given, with the very token, over HTTP and
/// over the event stream.
pub proof fn law_account_is_used_as_it_is_given(
    base: Seq<char>,
    token: Seq<char>,
    method: Seq<char>,
    body: JsonView,
)
    ensures
        account(base, token).base == base,
        account(base, token).token == token,
        account(base, token).call(method, body).url == base + "/api/"@ + method,
        account(base, token).call(method, body).token == token,
        token.is_suffix_of(account(base, token).ws_url()),
{
    let url = account(base, token).ws_url();
    assert(url.subrange(url.len() - token.len(), url.len() as int) =~= token);
}

} // verus!
