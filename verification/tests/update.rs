use mafold_cli::json::parse_text;
use mafold_cli::update::{
    apply, check, current_version, download_headers, latest, latest_release_url, newer_release,
    release_headers, release_in, staged_extension, staged_mode, target_triple, update_to_latest,
    Progress, Stage, UpdateError,
};
use mafold_cli::version::is_newer;

const RELEASE: &str = r#"{"tag_name":"v9.1.0","assets":[
    {"name":"mafold-x86_64-apple-darwin","browser_download_url":"https://d/mac"},
    {"name":"mafold-x86_64-unknown-linux-gnu","browser_download_url":"https://d/linux"},
    {"name":"mafold-x86_64-unknown-linux-gnu","browser_download_url":"https://d/again"},
    {"name":"mafold-aarch64-apple-darwin"}]}"#;

fn pair(a: &str, b: &str) -> (String, String) {
    (a.to_string(), b.to_string())
}

fn err(s: &str) -> Result<(), String> {
    Err(s.to_string())
}

#[test]
fn platforms_have_their_triples() {
    assert_eq!(target_triple("macos", "aarch64"), Some("aarch64-apple-darwin"));
    assert_eq!(target_triple("macos", "x86_64"), Some("x86_64-apple-darwin"));
    assert_eq!(target_triple("linux", "x86_64"), Some("x86_64-unknown-linux-gnu"));
    assert_eq!(target_triple("linux", "aarch64"), None);
    assert_eq!(target_triple("windows", "x86_64"), None);
    assert_eq!(target_triple("macos", "arm"), None);
}

#[test]
fn the_release_is_asked_for_at_its_address() {
    assert_eq!(
        latest_release_url(),
        "https://api.github.com/repos/mafold-com/mafold-cli/releases/latest"
    );
}

#[test]
fn a_release_carries_the_asset_of_the_platform() {
    assert_eq!(latest(RELEASE.as_bytes(), "linux", "x86_64"), Ok(pair("v9.1.0", "https://d/linux")));
    let v = parse_text(RELEASE).unwrap();
    assert_eq!(release_in(&v, "macos", "x86_64"), Ok(pair("v9.1.0", "https://d/mac")));
}

#[test]
fn an_unusable_release_says_why() {
    let e = latest(b"", "linux", "x86_64").unwrap_err();
    assert_eq!(
        e,
        UpdateError::NotJson("EOF while parsing a value at line 1 column 0".to_string())
    );
    assert_eq!(e.message(), "error decoding response body");
    let e = latest(b"{}", "windows", "x86_64").unwrap_err();
    assert_eq!(e, UpdateError::NoTagName);
    assert_eq!(e.message(), "no tag_name");
    let e = latest(RELEASE.as_bytes(), "windows", "x86_64").unwrap_err();
    assert_eq!(e, UpdateError::UnsupportedPlatform);
    assert_eq!(e.message(), "unsupported platform for self-update");
    // The asset is there, its address is not.
    let e = latest(RELEASE.as_bytes(), "macos", "aarch64").unwrap_err();
    assert_eq!(e, UpdateError::NoAsset("mafold-aarch64-apple-darwin".to_string()));
    assert_eq!(e.message(), "release has no asset mafold-aarch64-apple-darwin");
    for body in [r#"{"tag_name":"v1"}"#, r#"{"tag_name":"v1","assets":{}}"#, r#"{"tag_name":"v1","assets":[]}"#] {
        assert!(matches!(latest(body.as_bytes(), "linux", "x86_64"), Err(UpdateError::NoAsset(_))));
    }
}

#[test]
fn only_a_newer_release_is_offered() {
    assert_eq!(
        check(RELEASE.as_bytes(), "linux", "x86_64"),
        Ok(Some(pair("9.1.0", "https://d/linux")))
    );
    let same = RELEASE.replace("v9.1.0", "v0.1.0");
    assert_eq!(check(same.as_bytes(), "linux", "x86_64"), Ok(None));
    assert_eq!(check(b"{}", "linux", "x86_64"), Err(UpdateError::NoTagName));
    assert_eq!(newer_release("vv0.1.1", "u".to_string()), Some(pair("0.1.1", "u")));
    for old in ["0.1.0", "v0.1.0", "0.0.9", "", "v"] {
        assert_eq!(newer_release(old, "u".to_string()), None);
    }
}

#[test]
fn an_installation_takes_five_steps() {
    let mut i = apply("https://d/x".to_string());
    for stage in [Stage::Locate, Stage::Download, Stage::Write, Stage::Permit, Stage::Replace] {
        assert_eq!(i.stage, stage);
        i.on_step(Ok(()));
    }
    assert_eq!(i.stage, Stage::Installed);
    i.on_step(err("late"));
    assert_eq!(i.stage, Stage::Installed);
    assert_eq!(i.url, "https://d/x");
}

#[test]
fn a_failed_step_ends_the_installation() {
    for done in 0..5 {
        let mut i = apply("u".to_string());
        for _ in 0..done {
            i.on_step(Ok(()));
        }
        i.on_step(err("disk"));
        let expected = if done == 4 {
            UpdateError::NotReplaced("disk".to_string())
        } else {
            UpdateError::Failed("disk".to_string())
        };
        let message = if done == 4 { "failed to replace the binary" } else { "disk" };
        assert_eq!(expected.message(), message);
        assert_eq!(i.stage, Stage::Failed(expected));
        let stopped = apply("u".to_string());
        assert_ne!(i, stopped);
        i.on_step(Ok(()));
        assert!(matches!(i.stage, Stage::Failed(_)));
    }
}

#[test]
fn an_update_reports_the_version_once_installed() {
    let mut u = update_to_latest("linux", "x86_64");
    assert_eq!(u.progress, Progress::Asking);
    u.on_step(Ok(()));
    assert_eq!(u.progress, Progress::Asking);
    u.on_release(Ok(RELEASE.as_bytes().to_vec()));
    for _ in 0..5 {
        match &u.progress {
            Progress::Installing(version, install) => {
                assert_eq!(version, "9.1.0");
                assert_eq!(install.url, "https://d/linux");
            }
            other => panic!("{other:?}"),
        }
        u.on_step(Ok(()));
    }
    assert_eq!(u.progress, Progress::Finished(Ok(Some("9.1.0".to_string()))));
    u.on_release(Err("late".to_string()));
    assert_eq!(u.progress, Progress::Finished(Ok(Some("9.1.0".to_string()))));
}

#[test]
fn an_update_ends_early_where_there_is_nothing_to_do() {
    let mut u = update_to_latest("linux", "x86_64");
    u.on_release(Ok(RELEASE.replace("v9.1.0", "v0.0.1").into_bytes()));
    assert_eq!(u.progress, Progress::Finished(Ok(None)));
    let mut u = update_to_latest("linux", "riscv64");
    u.on_release(Ok(RELEASE.as_bytes().to_vec()));
    assert_eq!(u.progress, Progress::Finished(Err(UpdateError::UnsupportedPlatform)));
    let mut u = update_to_latest("linux", "x86_64");
    u.on_release(Err("offline".to_string()));
    assert_eq!(u.progress, Progress::Finished(Err(UpdateError::Failed("offline".to_string()))));
    let mut u = update_to_latest("linux", "x86_64");
    u.on_release(Ok(RELEASE.as_bytes().to_vec()));
    u.on_step(Ok(()));
    u.on_step(err("404"));
    assert_eq!(u.progress, Progress::Finished(Err(UpdateError::Failed("404".to_string()))));
}

#[test]
fn what_is_offered_is_newer_than_this_build() {
    for tag in ["v9", "vv1.0", "v 0.5", " v0.1.1", "0.2", "v0.1.0", "", "v v v"] {
        match newer_release(tag, "u".to_string()) {
            Some((version, url)) => {
                assert!(is_newer(&version, current_version()), "{tag:?}");
                assert!(!is_newer(tag, &version), "{tag:?}");
                assert!(!version.starts_with('v') && tag.ends_with(&version), "{tag:?}");
                assert_eq!(url, "u");
            }
            None => assert!(!is_newer(tag, current_version()), "{tag:?}"),
        }
    }
}

#[test]
fn requests_and_files_of_an_update_are_fixed() {
    assert_eq!(
        release_headers(),
        [pair("User-Agent", "mafold-cli"), pair("Accept", "application/vnd.github+json")]
    );
    assert_eq!(download_headers(), [pair("User-Agent", "mafold-cli")]);
    assert_eq!(staged_extension(), "new");
    assert_eq!(staged_mode(), 493);
}
