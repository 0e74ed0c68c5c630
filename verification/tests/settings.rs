use mafold_cli::settings::{parse_arguments, resolve, Command, Given, Settings};

fn some(s: &str) -> Option<String> {
    Some(s.to_string())
}

fn none() -> Given {
    Given { token: None, base: None, workdir: None, assistant: None }
}

fn args(list: &[&str]) -> Vec<String> {
    list.iter().map(|s| s.to_string()).collect()
}

#[test]
fn defaults_fill_in_for_all_but_the_token() {
    let env = Given { token: some("mb_e"), ..none() };
    assert_eq!(
        resolve(none(), env),
        Some(Settings {
            token: "mb_e".to_string(),
            base: "https://api.mafold.com".to_string(),
            workdir: ".".to_string(),
            assistant: "assistant.json".to_string(),
        })
    );
    assert_eq!(resolve(Given { base: some("b"), ..none() }, none()), None);
}

#[test]
fn the_command_line_comes_before_the_environment() {
    let env = Given {
        token: some("mb_e"),
        base: some("http://e"),
        workdir: some("/e"),
        assistant: some("e.json"),
    };
    let flags = Given { token: some("mb_f"), workdir: some(""), ..none() };
    assert_eq!(
        resolve(flags, env),
        Some(Settings {
            token: "mb_f".to_string(),
            base: "http://e".to_string(),
            workdir: "".to_string(),
            assistant: "e.json".to_string(),
        })
    );
}

#[test]
fn options_may_stand_anywhere() {
    let (given, command) =
        parse_arguments(&args(&["agent", "--token", "mb_x", "--workdir", "/w"])).unwrap();
    assert_eq!(command, Command::Agent);
    assert_eq!(given, Given { token: some("mb_x"), workdir: some("/w"), ..none() });
    let (given, command) = parse_arguments(&args(&["--token", "mb_x", "chats"])).unwrap();
    assert_eq!(command, Command::Chats);
    assert_eq!(given, Given { token: some("mb_x"), ..none() });
    let line = ["--token", "mb_x", "send", "@alice", "--base", "http://b", "hi there"];
    let (given, command) = parse_arguments(&args(&line)).unwrap();
    assert_eq!(command, Command::Send("@alice".to_string(), "hi there".to_string()));
    assert_eq!(given, Given { token: some("mb_x"), base: some("http://b"), ..none() });
    let (given, command) =
        parse_arguments(&args(&["--assistant", "a", "--assistant", "b", "update"])).unwrap();
    assert_eq!(command, Command::Update);
    assert_eq!(given, Given { assistant: some("b"), ..none() });
}

#[test]
fn without_a_command_the_agent_is_run() {
    assert_eq!(parse_arguments(&args(&[])), Some((none(), Command::Agent)));
}

#[test]
fn arguments_that_make_no_sense_are_refused() {
    for line in [
        vec!["--token"],
        vec!["chats", "--base"],
        vec!["chats", "now"],
        vec!["send", "@alice"],
        vec!["send", "@alice", "a", "b"],
        vec!["help"],
        vec!["--verbose"],
    ] {
        assert_eq!(parse_arguments(&args(&line)), None, "{line:?}");
    }
}
