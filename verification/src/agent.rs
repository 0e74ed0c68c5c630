//! The agent daemon: it finds out which account it is, listens for messages to
//! that account, and answers each in a turn of its own.
use crate::assistant::{Assistant, AssistantView};
use crate::client::{answered, ApiError, ApiErrorView, Client, ClientView, Reply, ReplyView};
use crate::json::{parse_text, text_json, Json, JsonView};
use crate::text::{
    law_trimming_takes_white_space_from_both_ends, lower_case, same_ignoring_case, trim, trimmed,
    white_space,
};
use crate::turn::{fresh, Turn, TurnView};
use vstd::prelude::*;

verus! {

/// Why the agent did not come up.
#[derive(Debug, PartialEq)]
pub enum AgentError {
    /// The account could not be asked for.
    GetMe(ApiError),
    /// The account has no name.
    NoIdentity,
    /// The server could not be listened to; why.
    NotConnected(String),
}

/// The model of an [`AgentError`].
pub enum AgentErrorView {
    GetMe(ApiErrorView),
    NoIdentity,
    NotConnected(Seq<char>),
}

impl View for AgentError {
    type V = AgentErrorView;

    open spec fn view(&self) -> AgentErrorView {
        match self {
            AgentError::GetMe(e) => AgentErrorView::GetMe(e@),
            AgentError::NoIdentity => AgentErrorView::NoIdentity,
            AgentError::NotConnected(why) => AgentErrorView::NotConnected(why@),
        }
    }
}

impl AgentErrorView {
    /// What the user is told.
    pub open spec fn message(self) -> Seq<char> {
        match self {
            AgentErrorView::GetMe(_) => "getMe failed — check the token / --base"@,
            AgentErrorView::NoIdentity => "could not resolve bot identity (bad token?)"@,
            AgentErrorView::NotConnected(_) => "WebSocket connect failed"@,
        }
    }
}

impl AgentError {
    /// What the user is told.
    pub fn message(&self) -> (r: &'static str)
        ensures
            r@ == self@.message(),
    {
        match self {
            AgentError::GetMe(_) => "getMe failed — check the token / --base",
            AgentError::NoIdentity => "could not resolve bot identity (bad token?)",
            AgentError::NotConnected(_) => "WebSocket connect failed",
        }
    }
}

/// The name of the account that the result of `getMe` describes.
pub open spec fn identified(me: Result<JsonView, ApiErrorView>) -> Result<
    Seq<char>,
    AgentErrorView,
> {
    match me {
        Err(e) => Err(AgentErrorView::GetMe(e)),
        Ok(v) => match v.at("username"@) {
            JsonView::Text(name) => if name.len() > 0 {
                Ok(name)
            } else {
                Err(AgentErrorView::NoIdentity)
            },
            _ => Err(AgentErrorView::NoIdentity),
        },
    }
}

/// The result of a call as its model.
pub open spec fn answer_view(r: Result<Json, ApiError>) -> Result<JsonView, ApiErrorView> {
    match r {
        Ok(v) => Ok(v@),
        Err(e) => Err(e@),
    }
}

/// The name of the account that the result of `getMe` describes.
pub fn identity(me: Result<Json, ApiError>) -> (r: Result<String, AgentError>)
    ensures
        r matches Ok(name) ==> identified(answer_view(me)) == Ok::<_, AgentErrorView>(name@),
        r matches Err(e) ==> identified(answer_view(me)) == Err::<Seq<char>, _>(e@),
{
    match me {
        Err(e) => Err(AgentError::GetMe(e)),
        Ok(v) => match v.text_at("username") {
            Some(name) => if name.is_empty() {
                Err(AgentError::NoIdentity)
            } else {
                Ok(name.to_owned())
            },
            None => Err(AgentError::NoIdentity),
        },
    }
}

/// Who sent a message.
#[derive(Debug, PartialEq)]
pub struct Sender {
    pub username: String,
}

/// A message to this account.
#[derive(Debug, PartialEq)]
pub struct IncomingMessage {
    pub conversation_id: String,
    pub sender: Sender,
    pub content: String,
}

/// The model of an [`IncomingMessage`].
pub struct IncomingMessageView {
    pub conversation_id: Seq<char>,
    pub username: Seq<char>,
    pub content: Seq<char>,
}

impl View for IncomingMessage {
    type V = IncomingMessageView;

    open spec fn view(&self) -> IncomingMessageView {
        IncomingMessageView {
            conversation_id: self.conversation_id@,
            username: self.sender.username@,
            content: self.content@,
        }
    }
}

/// The user name in the description of a sender: the field `username` of an
/// object, or the one item of a list. Other fields are passed over.
pub open spec fn sender_name(v: JsonView) -> Option<Seq<char>> {
    match v {
        JsonView::Object(_) => v.at("username"@).text(),
        JsonView::Array(items) => if items.len() == 1 {
            items[0].text()
        } else {
            None
        },
        _ => None,
    }
}

/// The message that an event describes: an object with the fields
/// `conversation_id`, `sender` and `content`, or a list of these in this order.
/// The content may be missing and is then empty; other fields are passed over.
pub open spec fn message(v: JsonView) -> Option<IncomingMessageView> {
    let (id, sender, content) = match v {
        JsonView::Object(_) => (
            v.at("conversation_id"@).text(),
            sender_name(v.at("sender"@)),
            match v.get("content"@) {
                Some(content) => content.text(),
                None => Some(Seq::empty()),
            },
        ),
        JsonView::Array(items) => if items.len() == 2 {
            (items[0].text(), sender_name(items[1]), Some(Seq::empty()))
        } else if items.len() == 3 {
            (items[0].text(), sender_name(items[1]), items[2].text())
        } else {
            (None, None, None)
        },
        _ => (None, None, None),
    };
    match (id, sender, content) {
        (Some(conversation_id), Some(username), Some(content)) => Some(
            IncomingMessageView { conversation_id, username, content },
        ),
        _ => None,
    }
}

/// The message that an event brings for the account `me` to answer, if it brings
/// one: a new message that someone else sent and that is not blank.
pub open spec fn addressed(event: JsonView, me: Seq<char>) -> Option<IncomingMessageView> {
    if event.at("method"@) != JsonView::Text("events.messageNew"@) {
        None
    } else {
        match message(event.at("params"@)) {
            Some(m) => if lower_case(m.username) == lower_case(me) || trimmed(m.content).len()
                == 0 {
                None
            } else {
                Some(m)
            },
            None => None,
        }
    }
}

/// The user name in the description of a sender.
fn decode_sender(v: &Json) -> (r: Option<&str>)
    ensures
        r is Some == sender_name(v@) is Some,
        r matches Some(name) ==> sender_name(v@) == Some(name@),
{
    match v {
        Json::Object(_) => v.text_at("username"),
        Json::Array(items) => if items.len() == 1 {
            items[0].text()
        } else {
            None
        },
        _ => None,
    }
}

/// The message that an event describes.
pub fn decode_message(v: &Json) -> (r: Option<IncomingMessage>)
    ensures
        r is Some == message(v@) is Some,
        r matches Some(m) ==> message(v@) == Some(m@),
{
    let (id, sender, content) = match v {
        Json::Object(_) => (
            v.text_at("conversation_id"),
            match v.get("sender") {
                Some(sender) => decode_sender(sender),
                None => None,
            },
            match v.get("content") {
                Some(content) => content.text(),
                None => Some(""),
            },
        ),
        Json::Array(items) => if items.len() == 2 {
            (items[0].text(), decode_sender(&items[1]), Some(""))
        } else if items.len() == 3 {
            (items[0].text(), decode_sender(&items[1]), items[2].text())
        } else {
            (None, None, None)
        },
        _ => (None, None, None),
    };
    proof {
        reveal_strlit("");
        assert(""@ == Seq::<char>::empty());
    }
    match (id, sender, content) {
        (Some(id), Some(username), Some(content)) => Some(
            IncomingMessage {
                conversation_id: id.to_owned(),
                sender: Sender { username: username.to_owned() },
                content: content.to_owned(),
            },
        ),
        _ => None,
    }
}

/// The message that an event brings for the account `me` to answer, if it brings
/// one.
pub fn message_for(event: &Json, me: &str) -> (r: Option<IncomingMessage>)
    ensures
        r is Some == addressed(event@, me@) is Some,
        r matches Some(m) ==> addressed(event@, me@) == Some(m@),
{
    if !event.says("method", "events.messageNew") {
        return None;
    }
    let m = match event.get("params") {
        Some(params) => match decode_message(params) {
            Some(m) => m,
            None => return None,
        },
        None => return None,
    };
    if same_ignoring_case(m.sender.username.as_str(), me) || trim(m.content.as_str()).is_empty() {
        None
    } else {
        Some(m)
    }
}

/// The message that a frame brings for the account `me` to answer, if it brings
/// one.
pub open spec fn heard(text: Seq<char>, me: Seq<char>) -> Option<IncomingMessageView> {
    match text_json(text) {
        Some(event) => addressed(event, me),
        None => None,
    }
}

/// The message that a frame brings for the account `me` to answer, if it brings
/// one.
pub fn message_in(text: &str, me: &str) -> (r: Option<IncomingMessage>)
    ensures
        r is Some == heard(text@, me@) is Some,
        r matches Some(m) ==> heard(text@, me@) == Some(m@),
{
    match parse_text(text) {
        Some(event) => message_for(&event, me),
        None => None,
    }
}

/// What the event stream yields next.
#[derive(Debug, PartialEq)]
pub enum Frame {
    /// A frame with this text.
    Text(String),
    /// A frame without a text.
    NoText,
    /// An error; the stream is of no more use.
    Broken,
    /// Nothing: the stream has ended.
    Closed,
}

/// Where an agent stands.
#[derive(Debug, PartialEq)]
pub enum Status {
    /// It is to be found out which account it is.
    Identifying,
    /// The event stream is to be opened.
    Connecting,
    /// The next frame is to be read.
    Listening,
    /// The agent is done.
    Stopped,
    /// The agent did not come up.
    Failed(AgentError),
}

/// The model of a [`Status`].
pub enum StatusView {
    Identifying,
    Connecting,
    Listening,
    Stopped,
    Failed(AgentErrorView),
}

impl View for Status {
    type V = StatusView;

    open spec fn view(&self) -> StatusView {
        match self {
            Status::Identifying => StatusView::Identifying,
            Status::Connecting => StatusView::Connecting,
            Status::Listening => StatusView::Listening,
            Status::Stopped => StatusView::Stopped,
            Status::Failed(e) => StatusView::Failed(e@),
        }
    }
}

/// An agent: it listens for messages to its account and answers each in a turn
/// of its own.
#[derive(Debug, PartialEq)]
pub struct Agent {
    pub client: Client,
    pub assistant: Assistant,
    pub workdir: String,
    /// The name of the account; empty until it is known.
    pub me: String,
    pub status: Status,
}

/// The model of an [`Agent`].
pub struct AgentView {
    pub client: ClientView,
    pub assistant: AssistantView,
    pub workdir: Seq<char>,
    pub me: Seq<char>,
    pub status: StatusView,
}

impl View for Agent {
    type V = AgentView;

    open spec fn view(&self) -> AgentView {
        AgentView {
            client: self.client@,
            assistant: self.assistant@,
            workdir: self.workdir@,
            me: self.me@,
            status: self.status@,
        }
    }
}

impl AgentView {
    /// The agent after the answer to `getMe`.
    pub open spec fn after_identity(self, reply: ReplyView) -> AgentView {
        if self.status is Identifying {
            match identified(answered("getMe"@, reply)) {
                Ok(me) => AgentView { me, status: StatusView::Connecting, ..self },
                Err(e) => AgentView { status: StatusView::Failed(e), ..self },
            }
        } else {
            self
        }
    }

    /// The agent after the event stream was opened, or was not, for some reason.
    pub open spec fn after_connecting(self, failed: Option<Seq<char>>) -> AgentView {
        if self.status is Connecting {
            match failed {
                None => AgentView { status: StatusView::Listening, ..self },
                Some(why) => AgentView {
                    status: StatusView::Failed(AgentErrorView::NotConnected(why)),
                    ..self
                },
            }
        } else {
            self
        }
    }

    /// The agent after a frame.
    pub open spec fn after_frame(self, frame: Frame) -> AgentView {
        if self.status is Listening && (frame is Broken || frame is Closed) {
            AgentView { status: StatusView::Stopped, ..self }
        } else {
            self
        }
    }

    /// The message that a frame brings for the agent to answer, if it brings one.
    pub open spec fn hears(self, frame: Frame) -> Option<IncomingMessageView> {
        match (self.status, frame) {
            (StatusView::Listening, Frame::Text(text)) => heard(text@, self.me),
            _ => None,
        }
    }

    /// The turn that answers a message, in the conversation that it came from.
    pub open spec fn turn(self, m: IncomingMessageView) -> TurnView {
        fresh(self.assistant, m.conversation_id, self.workdir, m.content)
    }

    /// Whether the agent knows which account it is, from the moment on at which it
    /// connects.
    pub open spec fn knows_itself(self) -> bool {
        ||| self.status is Identifying || self.status is Failed
        ||| self.me.len() > 0
    }
}

/// An agent that has yet to find out which account it is.
pub open spec fn begun(
    client: ClientView,
    assistant: AssistantView,
    workdir: Seq<char>,
) -> AgentView {
    AgentView { client, assistant, workdir, me: Seq::empty(), status: StatusView::Identifying }
}

/// An agent for an account, whose assistant works in a directory.
pub fn run(client: Client, assistant: Assistant, workdir: String) -> (r: Agent)
    ensures
        r@ == begun(client@, assistant@, workdir@),
        r@.client == client@,
        r@.assistant == assistant@,
        r@.workdir == workdir@,
        r@.me == Seq::<char>::empty(),
        r@.status is Identifying,
        r@.knows_itself(),
{
    Agent { client, assistant, workdir, me: String::new(), status: Status::Identifying }
}

impl Agent {
    /// Takes in the answer to `getMe`.
    pub fn on_identity(&mut self, reply: Reply)
        ensures
            final(self)@ == old(self)@.after_identity(reply@),
    {
        if let Status::Identifying = self.status {
            let call = self.client.me();
            match identity(call.answer(reply)) {
                Ok(me) => {
                    self.me = me;
                    self.status = Status::Connecting;
                },
                Err(e) => {
                    self.status = Status::Failed(e);
                },
            }
        }
    }

    /// Takes in whether the event stream could be opened.
    pub fn on_connected(&mut self, opened: Result<(), String>)
        ensures
            final(self)@ == old(self)@.after_connecting(
                match opened {
                    Ok(_) => None,
                    Err(why) => Some(why@),
                },
            ),
    {
        if let Status::Connecting = self.status {
            match opened {
                Ok(_) => {
                    self.status = Status::Listening;
                },
                Err(why) => {
                    self.status = Status::Failed(AgentError::NotConnected(why));
                },
            }
        }
    }

    /// Takes in a frame and gives the message that it brings for the agent to
    /// answer, if it brings one.
    pub fn on_frame(&mut self, frame: Frame) -> (r: Option<IncomingMessage>)
        ensures
            final(self)@ == old(self)@.after_frame(frame),
            r is Some == old(self)@.hears(frame) is Some,
            r matches Some(m) ==> old(self)@.hears(frame) == Some(m@),
    {
        let listening = match self.status {
            Status::Listening => true,
            _ => false,
        };
        if !listening {
            return None;
        }
        match frame {
            Frame::Text(text) => message_in(text.as_str(), self.me.as_str()),
            Frame::NoText => None,
            Frame::Broken | Frame::Closed => {
                self.status = Status::Stopped;
                None
            },
        }
    }

    /// The turn that answers a message.
    pub fn handle(&self, m: &IncomingMessage) -> (r: Turn)
        ensures
            r@ == self@.turn(m@),
    {
        Turn::new(
            self.assistant.clone(),
            m.conversation_id.as_str(),
            self.workdir.as_str(),
            m.content.as_str(),
        )
    }
}

/// How many milliseconds after the last ping, of which it is known whether it could
/// be sent, the next one is due; `None` where there is none any more. The server
/// takes the bot for online as long as it is pinged: the first ping is due at once,
/// and after one that could not be sent there is no other.
pub fn next_ping(last: Option<bool>) -> (r: Option<u64>)
    ensures
        last is None ==> r == Some(0u64),
        last == Some(true) ==> r == Some(25000u64),
        last == Some(false) ==> r is None,
{
    match last {
        None => Some(0),
        Some(true) => Some(25000),
        Some(false) => None,
    }
}

/// From the moment on at which it connects, an agent knows which account it is,
/// and it does not forget it.
pub proof fn law_agent_knows_itself(
    a: AgentView,
    reply: ReplyView,
    failed: Option<Seq<char>>,
    frame: Frame,
)
    requires
        a.knows_itself(),
    ensures
        a.after_identity(reply).knows_itself(),
        a.after_connecting(failed).knows_itself(),
        a.after_connecting(failed).me == a.me,
        a.after_frame(frame).knows_itself(),
        a.after_frame(frame).me == a.me,
        !(a.status is Identifying) ==> a.after_identity(reply) == a,
{
}

/// The agent answers neither itself, however its name is spelled, nor a blank
/// message.
pub proof fn law_only_others_are_answered(text: Seq<char>, me: Seq<char>)
    ensures
        heard(text, me) matches Some(m) ==> lower_case(m.username) != lower_case(me) && trimmed(
            m.content,
        ).len() > 0,
{
}

/// Whether a text holds a character that is no white space.
pub open spec fn not_blank(s: Seq<char>) -> bool {
    exists|k: int| 0 <= k < s.len() && !white_space(#[trigger] s[k])
}

/// What stays of a text when it is trimmed is empty if and only if the text is blank.
proof fn lemma_trimmed_is_empty(s: Seq<char>)
    ensures
        trimmed(s).len() > 0 <==> not_blank(s),
{
    let (a, b) = law_trimming_takes_white_space_from_both_ends(s);
    if a < b {
        assert(!white_space(s[a]));
    } else {
        assert forall|k: int| 0 <= k < s.len() implies white_space(#[trigger] s[k]) by {}
    }
}

/// A new message that someone else sent and that is not blank is always heard, with
/// the very conversation, sender and content that the event gives.
pub proof fn law_messages_of_others_are_heard(
    text: Seq<char>,
    me: Seq<char>,
    event: JsonView,
    conversation_id: Seq<char>,
    username: Seq<char>,
    content: Seq<char>,
)
    requires
        text_json(text) == Some(event),
        event.at("method"@) == JsonView::Text("events.messageNew"@),
        event.at("params"@).at("conversation_id"@) == JsonView::Text(conversation_id),
        event.at("params"@).at("sender"@).at("username"@) == JsonView::Text(username),
        event.at("params"@).at("content"@) == JsonView::Text(content),
        lower_case(username) != lower_case(me),
        not_blank(content),
    ensures
        heard(text, me) == Some(IncomingMessageView { conversation_id, username, content }),
{
    lemma_trimmed_is_empty(content);
}

/// The same holds where the event gives conversation, sender and content as a list, and
/// where it gives the sender as one.
pub proof fn law_listed_messages_of_others_are_heard(
    text: Seq<char>,
    me: Seq<char>,
    event: JsonView,
    params: JsonView,
    sender: JsonView,
    conversation_id: Seq<char>,
    username: Seq<char>,
    content: Seq<char>,
)
    requires
        text_json(text) == Some(event),
        event.at("method"@) == JsonView::Text("events.messageNew"@),
        event.at("params"@) == params,
        params == JsonView::Array(
            seq![JsonView::Text(conversation_id), sender, JsonView::Text(content)],
        ) || params.at("conversation_id"@) == JsonView::Text(conversation_id) && params.at(
            "sender"@,
        ) == sender && params.at("content"@) == JsonView::Text(content),
        sender.at("username"@) == JsonView::Text(username) || sender == JsonView::Array(
            seq![JsonView::Text(username)],
        ),
        lower_case(username) != lower_case(me),
        not_blank(content),
    ensures
        heard(text, me) == Some(IncomingMessageView { conversation_id, username, content }),
{
    lemma_trimmed_is_empty(content);
    if params is Array {
        let items = params->Array_0;
        assert(items[0] == JsonView::Text(conversation_id) && items[1] == sender && items[2]
            == JsonView::Text(content));
    }
    if sender is Array {
        assert(sender->Array_0[0] == JsonView::Text(username));
    }
}

/// What is heard is a new message of someone else that is not blank, and it is heard as
/// the event gives it: as fields of an object or as items of a list.
pub proof fn law_what_is_heard_was_sent(text: Seq<char>, me: Seq<char>, m: IncomingMessageView)
    requires
        heard(text, me) == Some(m),
    ensures
        text_json(text) is Some,
        ({
            let event = text_json(text)->0;
            let params = event.at("params"@);
            let sender = if params is Array {
                params->Array_0[1]
            } else {
                params.at("sender"@)
            };
            &&& event.at("method"@) == JsonView::Text("events.messageNew"@)
            &&& lower_case(m.username) != lower_case(me)
            &&& not_blank(m.content)
            &&& params is Object ==> params.at("conversation_id"@) == JsonView::Text(
                m.conversation_id,
            ) && params.at("content"@) == JsonView::Text(m.content)
            &&& params is Array ==> params->Array_0.len() == 3 && params->Array_0[0]
                == JsonView::Text(m.conversation_id) && params->Array_0[2] == JsonView::Text(
                m.content,
            )
            &&& params is Object || params is Array
            &&& sender.at("username"@) == JsonView::Text(m.username) || sender is Array
                && sender->Array_0.len() == 1 && sender->Array_0[0] == JsonView::Text(m.username)
        }),
{
    lemma_trimmed_is_empty(m.content);
    let (a, b) = law_trimming_takes_white_space_from_both_ends(Seq::<char>::empty());
}

/// A message without a content has an empty one, in an object and in a list; one with a
/// content that is no text is none.
pub proof fn law_content_may_be_missing(
    v: JsonView,
    sender: JsonView,
    conversation_id: Seq<char>,
    username: Seq<char>,
)
    requires
        sender.at("username"@) == JsonView::Text(username) || sender == JsonView::Array(
            seq![JsonView::Text(username)],
        ),
    ensures
        v.at("conversation_id"@) == JsonView::Text(conversation_id) && v.at("sender"@) == sender
            ==> {
            &&& v.get("content"@) is None ==> message(v) == Some(
                IncomingMessageView { conversation_id, username, content: Seq::empty() },
            )
            &&& v.get("content"@) is Some && !(v.get("content"@)->0 is Text) ==> message(v) is None
        },
        v == JsonView::Array(seq![JsonView::Text(conversation_id), sender]) ==> message(v) == Some(
            IncomingMessageView { conversation_id, username, content: Seq::empty() },
        ),
{
    if sender is Array {
        assert(sender->Array_0[0] == JsonView::Text(username));
    }
    if v == JsonView::Array(seq![JsonView::Text(conversation_id), sender]) {
        assert(v->Array_0[0] == JsonView::Text(conversation_id) && v->Array_0[1] == sender);
        assert(v.get("conversation_id"@) is None);
    }
}

/// An agent that is to find out which account it is takes the name that the answer to
/// `getMe` gives; where that is no name, or the call failed, it fails and says so.
pub proof fn law_agent_takes_the_name_it_is_given(
    a: AgentView,
    reply: ReplyView,
    v: JsonView,
    e: ApiErrorView,
    name: Seq<char>,
)
    requires
        a.status is Identifying,
    ensures
        answered("getMe"@, reply) == Ok::<_, ApiErrorView>(v) && v.at("username"@)
            == JsonView::Text(name) && name.len() > 0 ==> a.after_identity(reply).me == name
            && a.after_identity(reply).status is Connecting,
        answered("getMe"@, reply) == Ok::<_, ApiErrorView>(v) && !(v.at("username"@) is Text
            && v.at("username"@)->Text_0.len() > 0) ==> a.after_identity(reply).status
            == StatusView::Failed(AgentErrorView::NoIdentity) && a.after_identity(reply).me == a.me,
        answered("getMe"@, reply) == Err::<JsonView, _>(e) ==> a.after_identity(reply).status
            == StatusView::Failed(AgentErrorView::GetMe(e)) && a.after_identity(reply).me == a.me,
{
}

/// An agent listens from the moment at which the event stream is open until the stream
/// breaks or ends, and at no other time; account, assistant and directory stay the same.
pub proof fn law_agent_listens_while_the_stream_lasts(
    a: AgentView,
    reply: ReplyView,
    failed: Option<Seq<char>>,
    frame: Frame,
    why: Seq<char>,
)
    ensures
        a.status is Connecting && failed is None ==> a.after_connecting(failed).status is Listening,
        a.status is Connecting && failed == Some(why) ==> a.after_connecting(failed).status
            == StatusView::Failed(AgentErrorView::NotConnected(why)),
        !(a.status is Connecting) ==> a.after_connecting(failed) == a,
        a.status is Listening && (frame is Broken || frame is Closed) ==> a.after_frame(
            frame,
        ).status is Stopped,
        a.status is Listening && (frame is Text || frame is NoText) ==> a.after_frame(frame) == a,
        !(a.status is Listening) ==> a.after_frame(frame) == a,
        a.after_identity(reply).client == a.client,
        a.after_identity(reply).assistant == a.assistant,
        a.after_identity(reply).workdir == a.workdir,
        a.after_connecting(failed).client == a.client,
        a.after_connecting(failed).assistant == a.assistant,
        a.after_connecting(failed).workdir == a.workdir,
        a.after_frame(frame).client == a.client,
        a.after_frame(frame).assistant == a.assistant,
        a.after_frame(frame).workdir == a.workdir,
{
}

/// While it listens, an agent hears in each frame what the text of the frame brings for
/// its name; at no other time does it hear anything.
pub proof fn law_agent_hears_while_it_listens(a: AgentView, frame: Frame)
    ensures
        a.status is Listening ==> (frame matches Frame::Text(text) ==> a.hears(frame) == heard(
            text@,
            a.me,
        )),
        !(a.status is Listening) || !(frame is Text) ==> a.hears(frame) is None,
{
}

/// A message is answered in the conversation that it came from: the assistant of the
/// agent is handed the whole content, in the directory of the agent.
pub proof fn law_message_is_answered_where_it_came_from(a: AgentView, m: IncomingMessageView)
    ensures
        a.turn(m).chat_id == m.conversation_id,
        a.turn(m).prompt == m.content,
        a.turn(m).assistant == a.assistant,
        a.turn(m).workdir == a.workdir,
        a.turn(m).phase is Drafting,
        a.turn(m).buffer.len() == 0 && !a.turn(m).produced,
        a.turn(m) == fresh(a.assistant, m.conversation_id, a.workdir, m.content),
{
}

/// Messages, agents, their status and their errors are seen as they are.
pub proof fn law_agents_are_seen_as_they_are(
    m: IncomingMessage,
    a: Agent,
    s: Status,
    e: AgentError,
    r: Result<Json, ApiError>,
)
    ensures
        m@.conversation_id == m.conversation_id@ && m@.username == m.sender.username@,
        m@.content == m.content@,
        a@.client == a.client@ && a@.assistant == a.assistant@ && a@.workdir == a.workdir@,
        a@.me == a.me@ && a@.status == a.status@,
        s is Identifying == s@ is Identifying && s is Connecting == s@ is Connecting,
        s is Listening == s@ is Listening && s is Stopped == s@ is Stopped,
        s matches Status::Failed(f) ==> s@ == StatusView::Failed(f@),
        e matches AgentError::GetMe(f) ==> e@ == AgentErrorView::GetMe(f@),
        e is NoIdentity ==> e@ == AgentErrorView::NoIdentity,
        e matches AgentError::NotConnected(why) ==> e@ == AgentErrorView::NotConnected(why@),
        r matches Ok(v) ==> answer_view(r) == Ok::<_, ApiErrorView>(v@),
        r matches Err(f) ==> answer_view(r) == Err::<JsonView, _>(f@),
{
}

/// An agent begins with the account, the assistant and the directory that it is given, and
/// goes on to listen once its name is known and the stream is open.
pub proof fn law_agent_begins_with_its_task(
    client: ClientView,
    assistant: AssistantView,
    workdir: Seq<char>,
    reply: ReplyView,
    v: JsonView,
    name: Seq<char>,
)
    requires
        answered("getMe"@, reply) == Ok::<_, ApiErrorView>(v),
        v.at("username"@) == JsonView::Text(name),
        name.len() > 0,
    ensures
        ({
            let a = begun(client, assistant, workdir);
            let b = a.after_identity(reply).after_connecting(None);
            &&& a.client == client && a.assistant == assistant && a.workdir == workdir
            &&& a.status is Identifying && a.me.len() == 0
            &&& b.client == client && b.assistant == assistant && b.workdir == workdir
            &&& b.status is Listening && b.me == name
        }),
{
    law_agent_takes_the_name_it_is_given(
        begun(client, assistant, workdir),
        reply,
        v,
        ApiErrorView::NoDraftId,
        name,
    );
}

} // verus!
