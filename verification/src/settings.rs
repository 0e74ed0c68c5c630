//! What the user asks for: the arguments of the command line, the environment and
//! the defaults.
use crate::text::{same, texts};
use vstd::prelude::*;

verus! {

/// Settings as they are given in one place, as far as they are given there.
#[derive(Debug, PartialEq)]
pub struct Given {
    pub token: Option<String>,
    pub base: Option<String>,
    pub workdir: Option<String>,
    pub assistant: Option<String>,
}

/// The model of what is [`Given`].
pub struct GivenView {
    pub token: Option<Seq<char>>,
    pub base: Option<Seq<char>>,
    pub workdir: Option<Seq<char>>,
    pub assistant: Option<Seq<char>>,
}

/// The model of a text that may be missing.
pub open spec fn optional(s: Option<String>) -> Option<Seq<char>> {
    match s {
        Some(s) => Some(s@),
        None => None,
    }
}

impl View for Given {
    type V = GivenView;

    open spec fn view(&self) -> GivenView {
        GivenView {
            token: optional(self.token),
            base: optional(self.base),
            workdir: optional(self.workdir),
            assistant: optional(self.assistant),
        }
    }
}

/// Settings.
#[derive(Debug, PartialEq)]
pub struct Settings {
    pub token: String,
    pub base: String,
    pub workdir: String,
    /// The file that describes the assistant.
    pub assistant: String,
}

/// The model of [`Settings`].
pub struct SettingsView {
    pub token: Seq<char>,
    pub base: Seq<char>,
    pub workdir: Seq<char>,
    pub assistant: Seq<char>,
}

impl View for Settings {
    type V = SettingsView;

    open spec fn view(&self) -> SettingsView {
        SettingsView {
            token: self.token@,
            base: self.base@,
            workdir: self.workdir@,
            assistant: self.assistant@,
        }
    }
}

/// The first of two settings that is given.
pub open spec fn first_given(flag: Option<Seq<char>>, env: Option<Seq<char>>) -> Option<Seq<char>> {
    if flag is Some {
        flag
    } else {
        env
    }
}

/// A setting, or its default.
pub open spec fn or_default(s: Option<Seq<char>>, default: Seq<char>) -> Seq<char> {
    match s {
        Some(s) => s,
        None => default,
    }
}

/// The settings that hold: the command line comes before the environment; the
/// server is Mafold's own, the directory the current one and the assistant
/// described in `assistant.json` unless others are given; there is no default for
/// the token.
pub open spec fn settled_on(flags: GivenView, env: GivenView) -> Option<SettingsView> {
    match first_given(flags.token, env.token) {
        Some(token) => Some(
            SettingsView {
                token,
                base: or_default(first_given(flags.base, env.base), "https://api.mafold.com"@),
                workdir: or_default(first_given(flags.workdir, env.workdir), "."@),
                assistant: or_default(
                    first_given(flags.assistant, env.assistant),
                    "assistant.json"@,
                ),
            },
        ),
        None => None,
    }
}

/// The first of two settings that is given.
fn pick(flag: Option<String>, env: Option<String>) -> (r: Option<String>)
    ensures
        optional(r) == first_given(optional(flag), optional(env)),
{
    match flag {
        Some(s) => Some(s),
        None => env,
    }
}

/// A setting, or its default.
fn pick_or(s: Option<String>, default: &str) -> (r: String)
    ensures
        r@ == or_default(optional(s), default@),
{
    match s {
        Some(s) => s,
        None => default.to_owned(),
    }
}

/// The settings that hold; `None` where there is no token.
pub fn resolve(flags: Given, env: Given) -> (r: Option<Settings>)
    ensures
        r is Some == settled_on(flags@, env@) is Some,
        r matches Some(s) ==> settled_on(flags@, env@) == Some(s@),
{
    match pick(flags.token, env.token) {
        Some(token) => Some(
            Settings {
                token,
                base: pick_or(pick(flags.base, env.base), "https://api.mafold.com"),
                workdir: pick_or(pick(flags.workdir, env.workdir), "."),
                assistant: pick_or(pick(flags.assistant, env.assistant), "assistant.json"),
            },
        ),
        None => None,
    }
}

/// What is to be done.
#[derive(Debug, PartialEq)]
pub enum Command {
    /// Run the agent.
    Agent,
    /// List the conversations.
    Chats,
    /// Send to this chat this text.
    Send(String, String),
    /// Update this program.
    Update,
}

/// The model of a [`Command`].
pub enum CommandView {
    Agent,
    Chats,
    Send(Seq<char>, Seq<char>),
    Update,
}

impl View for Command {
    type V = CommandView;

    open spec fn view(&self) -> CommandView {
        match self {
            Command::Agent => CommandView::Agent,
            Command::Chats => CommandView::Chats,
            Command::Send(chat, text) => CommandView::Send(chat@, text@),
            Command::Update => CommandView::Update,
        }
    }
}

/// The command that some words give; without any, the agent is run.
pub open spec fn command(words: Seq<Seq<char>>) -> Option<CommandView> {
    if words.len() == 0 || words == seq!["agent"@] {
        Some(CommandView::Agent)
    } else if words == seq!["chats"@] {
        Some(CommandView::Chats)
    } else if words == seq!["update"@] {
        Some(CommandView::Update)
    } else if words.len() == 3 && words[0] == "send"@ {
        Some(CommandView::Send(words[1], words[2]))
    } else {
        None
    }
}

/// What the arguments of the command line give: the options with their values, of
/// which the last counts, and the remaining words. `None` where an option is
/// without its value.
pub open spec fn taken(
    args: Seq<Seq<char>>,
    given: GivenView,
    words: Seq<Seq<char>>,
) -> Option<(GivenView, Seq<Seq<char>>)>
    decreases args.len(),
{
    if args.len() == 0 {
        Some((given, words))
    } else if args[0] == "--token"@ || args[0] == "--base"@ || args[0] == "--workdir"@ || args[0]
        == "--assistant"@ {
        if args.len() == 1 {
            None
        } else {
            taken(
                args.skip(2),
                if args[0] == "--token"@ {
                    GivenView { token: Some(args[1]), ..given }
                } else if args[0] == "--base"@ {
                    GivenView { base: Some(args[1]), ..given }
                } else if args[0] == "--workdir"@ {
                    GivenView { workdir: Some(args[1]), ..given }
                } else {
                    GivenView { assistant: Some(args[1]), ..given }
                },
                words,
            )
        }
    } else {
        taken(args.skip(1), given, words.push(args[0]))
    }
}

/// No settings at all.
pub open spec fn nothing_given() -> GivenView {
    GivenView { token: None, base: None, workdir: None, assistant: None }
}

/// Options and command that the arguments of the command line give.
pub open spec fn invocation(args: Seq<Seq<char>>) -> Option<(GivenView, CommandView)> {
    match taken(args, nothing_given(), Seq::empty()) {
        Some((given, words)) => match command(words) {
            Some(c) => Some((given, c)),
            None => None,
        },
        None => None,
    }
}

/// The command that some words give.
fn read_command(words: &Vec<String>) -> (r: Option<Command>)
    ensures
        r is Some == command(texts(words@)) is Some,
        r matches Some(c) ==> command(texts(words@)) == Some(c@),
{
    let ghost w = texts(words@);
    let n = words.len();
    if n == 0 {
        return Some(Command::Agent);
    }
    if n == 1 {
        assert(w =~= seq![words@[0]@]);
        assert(seq!["agent"@][0] == "agent"@ && seq!["chats"@][0] == "chats"@
            && seq!["update"@][0] == "update"@);
        if same(words[0].as_str(), "agent") {
            return Some(Command::Agent);
        } else if same(words[0].as_str(), "chats") {
            return Some(Command::Chats);
        } else if same(words[0].as_str(), "update") {
            return Some(Command::Update);
        }
        return None;
    }
    if n == 3 && same(words[0].as_str(), "send") {
        return Some(Command::Send(words[1].clone(), words[2].clone()));
    }
    None
}

/// Options and command that the arguments of the command line give; `None` where
/// they make no sense.
pub fn parse_arguments(args: &Vec<String>) -> (r: Option<(Given, Command)>)
    ensures
        r is Some == invocation(texts(args@)) is Some,
        r matches Some(p) ==> invocation(texts(args@)) == Some((p.0@, p.1@)),
{
    let ghost all = texts(args@);
    let mut given = Given { token: None, base: None, workdir: None, assistant: None };
    let mut words: Vec<String> = Vec::new();
    let mut i: usize = 0;
    assert(all.skip(0) == all);
    assert(texts(words@) =~= Seq::empty());
    while i < args.len()
        invariant
            all == texts(args@),
            i <= args@.len(),
            taken(all, nothing_given(), Seq::empty()) == taken(
                all.skip(i as int),
                given@,
                texts(words@),
            ),
        decreases args@.len() - i,
    {
        let arg = args[i].as_str();
        let ghost rest = all.skip(i as int);
        assert(rest[0] == arg@);
        let token = same(arg, "--token");
        let base = same(arg, "--base");
        let workdir = same(arg, "--workdir");
        if token || base || workdir || same(arg, "--assistant") {
            if args.len() - i < 2 {
                return None;
            }
            let value = args[i + 1].clone();
            assert(rest[1] == value@);
            assert(rest.skip(2) == all.skip(i + 2));
            if token {
                given.token = Some(value);
            } else if base {
                given.base = Some(value);
            } else if workdir {
                given.workdir = Some(value);
            } else {
                given.assistant = Some(value);
            }
            i += 2;
        } else {
            let ghost before = texts(words@);
            words.push(args[i].clone());
            assert(texts(words@) =~= before.push(arg@));
            assert(rest.skip(1) == all.skip(i + 1));
            i += 1;
        }
    }
    match read_command(&words) {
        Some(c) => Some((given, c)),
        None => None,
    }
}

/// There are settings if and only if there is a token, and each is the one of the
/// command line if it is given there, else the one of the environment if it is
/// given there, else the default.
pub proof fn law_command_line_comes_first(flags: GivenView, env: GivenView)
    ensures
        settled_on(flags, env) is Some <==> flags.token is Some || env.token is Some,
        settled_on(flags, env) matches Some(s) ==> {
            &&& s.token == if flags.token is Some { flags.token->0 } else { env.token->0 }
            &&& flags.base is Some ==> s.base == flags.base->0
            &&& flags.base is None && env.base is Some ==> s.base == env.base->0
            &&& flags.base is None && env.base is None ==> s.base == "https://api.mafold.com"@
            &&& flags.workdir is Some ==> s.workdir == flags.workdir->0
            &&& flags.workdir is None && env.workdir is Some ==> s.workdir == env.workdir->0
            &&& flags.workdir is None && env.workdir is None ==> s.workdir == "."@
            &&& flags.assistant is Some ==> s.assistant == flags.assistant->0
            &&& flags.assistant is None && env.assistant is Some ==> s.assistant
                == env.assistant->0
            &&& flags.assistant is None && env.assistant is None ==> s.assistant
                == "assistant.json"@
        },
{
}

/// Whether an argument is the name of an option.
pub open spec fn option_name(arg: Seq<char>) -> bool {
    arg == "--token"@ || arg == "--base"@ || arg == "--workdir"@ || arg == "--assistant"@
}

/// The arguments are taken from the left: an option takes the argument after it as
/// its value, in place of one that was given before, and leaves all else as it is; an
/// option without an argument after it makes no sense; any other argument is a word.
pub proof fn law_arguments_are_taken_from_the_left(
    arg: Seq<char>,
    value: Seq<char>,
    rest: Seq<Seq<char>>,
    g: GivenView,
    words: Seq<Seq<char>>,
)
    ensures
        taken(Seq::empty(), g, words) == Some((g, words)),
        option_name(arg) ==> taken(seq![arg], g, words) is None,
        !option_name(arg) ==> taken(seq![arg] + rest, g, words) == taken(rest, g, words.push(arg)),
        arg == "--token"@ ==> taken(seq![arg, value] + rest, g, words) == taken(
            rest,
            (GivenView {
                token: Some(value),
                base: g.base,
                workdir: g.workdir,
                assistant: g.assistant,
            }),
            words,
        ),
        arg == "--base"@ ==> taken(seq![arg, value] + rest, g, words) == taken(
            rest,
            (GivenView {
                token: g.token,
                base: Some(value),
                workdir: g.workdir,
                assistant: g.assistant,
            }),
            words,
        ),
        arg == "--workdir"@ ==> taken(seq![arg, value] + rest, g, words) == taken(
            rest,
            (GivenView {
                token: g.token,
                base: g.base,
                workdir: Some(value),
                assistant: g.assistant,
            }),
            words,
        ),
        arg == "--assistant"@ ==> taken(seq![arg, value] + rest, g, words) == taken(
            rest,
            (GivenView {
                token: g.token,
                base: g.base,
                workdir: g.workdir,
                assistant: Some(value),
            }),
            words,
        ),
{
    reveal_strlit("--token");
    reveal_strlit("--base");
    reveal_strlit("--workdir");
    reveal_strlit("--assistant");
    assert("--token"@.len() == 7 && "--base"@.len() == 6 && "--workdir"@.len() == 9
        && "--assistant"@.len() == 11);
    assert((seq![arg] + rest).skip(1) == rest);
    assert((seq![arg, value] + rest).skip(2) == rest);
    assert((seq![arg] + rest)[0] == arg);
    assert((seq![arg, value] + rest)[0] == arg);
    assert((seq![arg, value] + rest)[1] == value);
}

/// The words of the command line give one of the four commands, a message with the
/// very chat and text that are given, or none.
pub proof fn law_words_give_the_command(words: Seq<Seq<char>>, chat: Seq<char>, text: Seq<char>)
    ensures
        command(words) == Some(CommandView::Agent) <==> words.len() == 0 || (words.len() == 1
            && words[0] == "agent"@),
        command(words) == Some(CommandView::Chats) <==> words.len() == 1 && words[0] == "chats"@,
        command(words) == Some(CommandView::Update) <==> words.len() == 1 && words[0]
            == "update"@,
        command(words) == Some(CommandView::Send(chat, text)) <==> words == seq![
            "send"@,
            chat,
            text,
        ],
{
    reveal_strlit("agent");
    reveal_strlit("chats");
    reveal_strlit("update");
    assert("agent"@[0] == 'a' && "chats"@[0] == 'c' && "update"@[0] == 'u');
    let sent = seq!["send"@, chat, text];
    assert(sent[0] == "send"@ && sent[1] == chat && sent[2] == text);
    if words.len() == 1 {
        assert(words =~= seq![words[0]]);
        assert(seq!["agent"@][0] == "agent"@ && seq!["chats"@][0] == "chats"@
            && seq!["update"@][0] == "update"@);
    }
    if words.len() == 3 && words[0] == "send"@ && words[1] == chat && words[2] == text {
        assert(words =~= sent);
    }
}

/// The command line gives the options that were taken and the command that the words
/// give; nothing is given where nothing was taken.
pub proof fn law_command_line_gives_options_and_command(
    args: Seq<Seq<char>>,
    g: GivenView,
    c: CommandView,
)
    ensures
        invocation(args) == Some((g, c)) <==> {
            &&& taken(args, nothing_given(), Seq::empty()) matches Some(p)
            &&& p.0 == g
            &&& command(p.1) == Some(c)
        },
        nothing_given().token is None && nothing_given().base is None,
        nothing_given().workdir is None && nothing_given().assistant is None,
{
}

/// What is given, what holds and what is to be done are seen as they are.
pub proof fn law_settings_are_seen_as_they_are(g: Given, s: Settings, c: Command)
    ensures
        g.token is Some == g@.token is Some && (g.token is Some ==> g@.token->0 == g.token->0@),
        g.base is Some == g@.base is Some && (g.base is Some ==> g@.base->0 == g.base->0@),
        g.workdir is Some == g@.workdir is Some && (g.workdir is Some ==> g@.workdir->0
            == g.workdir->0@),
        g.assistant is Some == g@.assistant is Some && (g.assistant is Some ==> g@.assistant->0
            == g.assistant->0@),
        s@.token == s.token@ && s@.base == s.base@,
        s@.workdir == s.workdir@ && s@.assistant == s.assistant@,
        c is Agent ==> c@ == CommandView::Agent,
        c is Chats ==> c@ == CommandView::Chats,
        c is Update ==> c@ == CommandView::Update,
        c matches Command::Send(chat, text) ==> c@ == CommandView::Send(chat@, text@),
{
}

} // verus!
