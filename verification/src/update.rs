//! Self-update: which release is offered, whether it is newer, and the steps that
//! put its binary in the place of the running one.
use crate::json::{bytes_json, parse_bytes, Json, JsonView};
use crate::text::{equals, same, strip_leading, stripped};
use crate::version::{
    is_newer, later, law_digits_are_decimal, law_leading_v_is_passed_over,
    law_plain_version_is_read, law_version_is_as_new_as_its_tag, lemma_leading_split, semver,
};
use vstd::prelude::*;
use vstd::string::*;

verus! {

/// The version of this build.
pub open spec fn version() -> Seq<char> {
    "0.1.0"@
}

/// The version of this build.
pub fn current_version() -> (r: &'static str)
    ensures
        r@ == version(),
{
    "0.1.0"
}

/// The name under which a release carries the build for an operating system and
/// a processor; `None` where there is no such build.
pub open spec fn triple(os: Seq<char>, arch: Seq<char>) -> Option<Seq<char>> {
    if os == "macos"@ && arch == "aarch64"@ {
        Some("aarch64-apple-darwin"@)
    } else if os == "macos"@ && arch == "x86_64"@ {
        Some("x86_64-apple-darwin"@)
    } else if os == "linux"@ && arch == "x86_64"@ {
        Some("x86_64-unknown-linux-gnu"@)
    } else {
        None
    }
}

/// The release-asset target triple of a platform (as the release workflow names
/// it).
pub fn target_triple(os: &str, arch: &str) -> (r: Option<&'static str>)
    ensures
        r is Some == triple(os@, arch@) is Some,
        r matches Some(t) ==> t@ == triple(os@, arch@)->0,
{
    if same(os, "macos") && same(arch, "aarch64") {
        Some("aarch64-apple-darwin")
    } else if same(os, "macos") && same(arch, "x86_64") {
        Some("x86_64-apple-darwin")
    } else if same(os, "linux") && same(arch, "x86_64") {
        Some("x86_64-unknown-linux-gnu")
    } else {
        None
    }
}

/// Why an update did not come about.
#[derive(Debug, PartialEq)]
pub enum UpdateError {
    /// A step outside this library failed, with this message.
    Failed(String),
    /// The release description was no JSON; what the parser said.
    NotJson(String),
    /// The release description has no tag.
    NoTagName,
    /// There are no builds for this platform.
    UnsupportedPlatform,
    /// The release does not carry the asset of this name.
    NoAsset(String),
    /// The new binary could not be put in place, with this message.
    NotReplaced(String),
}

/// The model of an [`UpdateError`].
pub enum UpdateErrorView {
    Failed(Seq<char>),
    NotJson(Seq<char>),
    NoTagName,
    UnsupportedPlatform,
    NoAsset(Seq<char>),
    NotReplaced(Seq<char>),
}

impl View for UpdateError {
    type V = UpdateErrorView;

    open spec fn view(&self) -> UpdateErrorView {
        match self {
            UpdateError::Failed(e) => UpdateErrorView::Failed(e@),
            UpdateError::NotJson(e) => UpdateErrorView::NotJson(e@),
            UpdateError::NoTagName => UpdateErrorView::NoTagName,
            UpdateError::UnsupportedPlatform => UpdateErrorView::UnsupportedPlatform,
            UpdateError::NoAsset(name) => UpdateErrorView::NoAsset(name@),
            UpdateError::NotReplaced(e) => UpdateErrorView::NotReplaced(e@),
        }
    }
}

impl UpdateErrorView {
    /// What the user is told.
    pub open spec fn message(self) -> Seq<char> {
        match self {
            UpdateErrorView::Failed(e) => e,
            UpdateErrorView::NotJson(_) => "error decoding response body"@,
            UpdateErrorView::NoTagName => "no tag_name"@,
            UpdateErrorView::UnsupportedPlatform => "unsupported platform for self-update"@,
            UpdateErrorView::NoAsset(name) => "release has no asset "@ + name,
            UpdateErrorView::NotReplaced(_) => "failed to replace the binary"@,
        }
    }
}

impl UpdateError {
    /// What the user is told.
    pub fn message(&self) -> (r: String)
        ensures
            r@ == self@.message(),
    {
        match self {
            UpdateError::Failed(e) => e.clone(),
            UpdateError::NotJson(_) => "error decoding response body".to_owned(),
            UpdateError::NoTagName => "no tag_name".to_owned(),
            UpdateError::UnsupportedPlatform => "unsupported platform for self-update".to_owned(),
            UpdateError::NoAsset(name) => "release has no asset ".to_owned().concat(name.as_str()),
            UpdateError::NotReplaced(_) => "failed to replace the binary".to_owned(),
        }
    }
}

/// Where the latest release is described.
pub open spec fn release_url() -> Seq<char> {
    "https://api.github.com/repos/mafold-com/mafold-cli/releases/latest"@
}

/// Where the latest release is described.
pub fn latest_release_url() -> (r: &'static str)
    ensures
        r@ == release_url(),
{
    "https://api.github.com/repos/mafold-com/mafold-cli/releases/latest"
}

/// The model of the headers of a request: names and values.
pub open spec fn header_texts(v: Seq<(String, String)>) -> Seq<(Seq<char>, Seq<char>)> {
    v.map_values(|h: (String, String)| (h.0@, h.1@))
}

/// The header by which a request says who makes it.
pub open spec fn user_agent() -> (Seq<char>, Seq<char>) {
    ("User-Agent"@, "mafold-cli"@)
}

/// The headers with which the description of the latest release is asked for.
pub fn release_headers() -> (r: Vec<(String, String)>)
    ensures
        header_texts(r@) == seq![user_agent(), ("Accept"@, "application/vnd.github+json"@)],
{
    let r = vec![
        ("User-Agent".to_owned(), "mafold-cli".to_owned()),
        ("Accept".to_owned(), "application/vnd.github+json".to_owned()),
    ];
    assert(header_texts(r@) =~= seq![user_agent(), ("Accept"@, "application/vnd.github+json"@)]);
    r
}

/// The headers with which the new binary is asked for.
pub fn download_headers() -> (r: Vec<(String, String)>)
    ensures
        header_texts(r@) == seq![user_agent()],
{
    let r = vec![("User-Agent".to_owned(), "mafold-cli".to_owned())];
    assert(header_texts(r@) =~= seq![user_agent()]);
    r
}

/// The extension that the file beside the running binary has, to which the new one
/// is first written.
pub fn staged_extension() -> (r: &'static str)
    ensures
        r@ == "new"@,
{
    "new"
}

/// The mode that makes what was written executable.
pub fn staged_mode() -> (r: u32)
    ensures
        r == 0o755,
{
    0o755
}

/// The first of `items` whose name is `name`.
pub open spec fn named(items: Seq<JsonView>, name: Seq<char>) -> Option<JsonView>
    decreases items.len(),
{
    if items.len() == 0 {
        None
    } else if items[0].at("name"@) == JsonView::Text(name) {
        Some(items[0])
    } else {
        named(items.drop_first(), name)
    }
}

/// The name of the asset for a target triple.
pub open spec fn asset_name(target: Seq<char>) -> Seq<char> {
    "mafold-"@ + target
}

/// The download address of an asset: that of the first asset of this name, if it
/// has one.
pub open spec fn asset_url(v: JsonView, name: Seq<char>) -> Option<Seq<char>> {
    match v.at("assets"@) {
        JsonView::Array(items) => match named(items, name) {
            Some(asset) => asset.at("browser_download_url"@).text(),
            None => None,
        },
        _ => None,
    }
}

/// Tag and download address that a release description gives for a platform.
pub open spec fn release(v: JsonView, os: Seq<char>, arch: Seq<char>) -> Result<
    (Seq<char>, Seq<char>),
    UpdateErrorView,
> {
    match v.at("tag_name"@).text() {
        None => Err(UpdateErrorView::NoTagName),
        Some(tag) => match triple(os, arch) {
            None => Err(UpdateErrorView::UnsupportedPlatform),
            Some(target) => match asset_url(v, asset_name(target)) {
                None => Err(UpdateErrorView::NoAsset(asset_name(target))),
                Some(url) => Ok((tag, url)),
            },
        },
    }
}

/// The download address of the asset of this name.
fn find_asset<'a>(v: &'a Json, name: &str) -> (r: Option<&'a str>)
    ensures
        r is Some == asset_url(v@, name@) is Some,
        r matches Some(url) ==> url@ == asset_url(v@, name@)->0,
{
    match v.get("assets") {
        Some(Json::Array(items)) => {
            let ghost all = v@.at("assets"@)->Array_0;
            let mut i: usize = 0;
            assert(all.skip(0) == all);
            while i < items.len()
                invariant
                    v@.at("assets"@) == JsonView::Array(all),
                    all.len() == items@.len(),
                    forall|k: int| 0 <= k < all.len() ==> all[k] == (#[trigger] items@[k])@,
                    i <= items@.len(),
                    named(all, name@) == named(all.skip(i as int), name@),
                decreases items@.len() - i,
            {
                assert(all.skip(i as int)[0] == items@[i as int]@);
                assert(all.skip(i as int).drop_first() == all.skip(i + 1));
                if items[i].says("name", name) {
                    return items[i].text_at("browser_download_url");
                }
                i += 1;
            }
            None
        },
        _ => None,
    }
}

/// Tag and download address that a release description gives for a platform.
pub fn release_in(v: &Json, os: &str, arch: &str) -> (r: Result<(String, String), UpdateError>)
    ensures
        r matches Ok(p) ==> release(v@, os@, arch@) == Ok::<_, UpdateErrorView>((p.0@, p.1@)),
        r matches Err(e) ==> release(v@, os@, arch@) == Err::<(Seq<char>, Seq<char>), _>(e@),
{
    let tag = match v.text_at("tag_name") {
        Some(tag) => tag,
        None => return Err(UpdateError::NoTagName),
    };
    let target = match target_triple(os, arch) {
        Some(target) => target,
        None => return Err(UpdateError::UnsupportedPlatform),
    };
    let name = "mafold-".to_owned().concat(target);
    match find_asset(v, name.as_str()) {
        Some(url) => Ok((tag.to_owned(), url.to_owned())),
        None => Err(UpdateError::NoAsset(name)),
    }
}

/// Tag and download address of the latest release, from the bytes that describe
/// it.
pub open spec fn release_in_bytes(body: Seq<u8>, os: Seq<char>, arch: Seq<char>) -> Result<
    (Seq<char>, Seq<char>),
    UpdateErrorView,
> {
    match bytes_json(body) {
        Ok(v) => release(v, os, arch),
        Err(e) => Err(UpdateErrorView::NotJson(e)),
    }
}

/// Tag and download address of the latest release, from the bytes that describe
/// it.
pub fn latest(body: &[u8], os: &str, arch: &str) -> (r: Result<(String, String), UpdateError>)
    ensures
        r matches Ok(p) ==> release_in_bytes(body@, os@, arch@) == Ok::<_, UpdateErrorView>(
            (p.0@, p.1@),
        ),
        r matches Err(e) ==> release_in_bytes(body@, os@, arch@) == Err::<
            (Seq<char>, Seq<char>),
            _,
        >(e@),
{
    match parse_bytes(body) {
        Ok(v) => release_in(&v, os, arch),
        Err(e) => Err(UpdateError::NotJson(e)),
    }
}

/// Version and download address of a release, if it is newer than this build.
pub open spec fn offer(tag: Seq<char>, url: Seq<char>) -> Option<(Seq<char>, Seq<char>)> {
    if later(semver(tag), semver(version())) {
        Some((stripped(tag, 'v'), url))
    } else {
        None
    }
}

/// Version and download address of a release, if it is newer than this build.
pub fn newer_release(tag: &str, url: String) -> (r: Option<(String, String)>)
    ensures
        r is Some == offer(tag@, url@) is Some,
        r matches Some(p) ==> offer(tag@, url@) == Some((p.0@, p.1@)),
        r is Some <==> later(semver(tag@), semver(version())),
        r matches Some(p) ==> p.0@ == stripped(tag@, 'v') && p.1@ == url@,
{
    if is_newer(tag, current_version()) {
        Some((strip_leading(tag, 'v').to_owned(), url))
    } else {
        None
    }
}

/// What a check for updates finds in the bytes that describe the latest release.
pub open spec fn checked(body: Seq<u8>, os: Seq<char>, arch: Seq<char>) -> Result<
    Option<(Seq<char>, Seq<char>)>,
    UpdateErrorView,
> {
    match release_in_bytes(body, os, arch) {
        Ok(p) => Ok(offer(p.0, p.1)),
        Err(e) => Err(e),
    }
}

/// Is a newer release available? Its version and download address, from the
/// bytes that describe the latest one.
pub fn check(body: &[u8], os: &str, arch: &str) -> (r: Result<
    Option<(String, String)>,
    UpdateError,
>)
    ensures
        r matches Ok(Some(p)) ==> checked(body@, os@, arch@) == Ok::<_, UpdateErrorView>(
            Some((p.0@, p.1@)),
        ),
        r matches Ok(None) ==> checked(body@, os@, arch@) == Ok::<_, UpdateErrorView>(
            None::<(Seq<char>, Seq<char>)>,
        ),
        r matches Err(e) ==> checked(body@, os@, arch@) == Err::<
            Option<(Seq<char>, Seq<char>)>,
            _,
        >(e@),
{
    match latest(body, os, arch) {
        Ok((tag, url)) => Ok(newer_release(tag.as_str(), url)),
        Err(e) => Err(e),
    }
}

/// How far the replacement of the binary has come: which step is to be taken
/// next, or how it ended.
#[derive(Debug, PartialEq)]
pub enum Stage {
    /// Find out which file is running.
    Locate,
    /// Fetch the new binary.
    Download,
    /// Write it beside the old one.
    Write,
    /// Make what was written executable.
    Permit,
    /// Move it over the old one.
    Replace,
    Installed,
    Failed(UpdateError),
}

/// The model of a [`Stage`].
pub enum StageView {
    Locate,
    Download,
    Write,
    Permit,
    Replace,
    Installed,
    Failed(UpdateErrorView),
}

impl View for Stage {
    type V = StageView;

    open spec fn view(&self) -> StageView {
        match self {
            Stage::Locate => StageView::Locate,
            Stage::Download => StageView::Download,
            Stage::Write => StageView::Write,
            Stage::Permit => StageView::Permit,
            Stage::Replace => StageView::Replace,
            Stage::Installed => StageView::Installed,
            Stage::Failed(e) => StageView::Failed(e@),
        }
    }
}

/// The message with which a step failed, if it did.
pub open spec fn failure(r: Result<(), String>) -> Option<Seq<char>> {
    match r {
        Ok(_) => None,
        Err(e) => Some(e@),
    }
}

/// The stage after the step that is due has ended, with a failure or without.
pub open spec fn stage_after(stage: StageView, failed: Option<Seq<char>>) -> StageView {
    match (stage, failed) {
        (StageView::Installed, _) => stage,
        (StageView::Failed(_), _) => stage,
        (StageView::Replace, Some(e)) => StageView::Failed(UpdateErrorView::NotReplaced(e)),
        (_, Some(e)) => StageView::Failed(UpdateErrorView::Failed(e)),
        (StageView::Locate, None) => StageView::Download,
        (StageView::Download, None) => StageView::Write,
        (StageView::Write, None) => StageView::Permit,
        (StageView::Permit, None) => StageView::Replace,
        (StageView::Replace, None) => StageView::Installed,
    }
}

/// The replacement of the running binary by the one at an address.
#[derive(Debug, PartialEq)]
pub struct Installation {
    pub url: String,
    pub stage: Stage,
}

/// Begins to replace the running binary by the one at `url`.
pub fn apply(url: String) -> (r: Installation)
    ensures
        r.url@ == url@,
        r.stage@ == StageView::Locate,
{
    Installation { url, stage: Stage::Locate }
}

impl Installation {
    /// Takes in how the step that was due has ended.
    pub fn on_step(&mut self, ended: Result<(), String>)
        ensures
            final(self).url == old(self).url,
            final(self).stage@ == stage_after(old(self).stage@, failure(ended)),
    {
        match ended {
            Ok(_) => {
                match self.stage {
                    Stage::Locate => self.stage = Stage::Download,
                    Stage::Download => self.stage = Stage::Write,
                    Stage::Write => self.stage = Stage::Permit,
                    Stage::Permit => self.stage = Stage::Replace,
                    Stage::Replace => self.stage = Stage::Installed,
                    _ => {},
                }
            },
            Err(e) => {
                match self.stage {
                    Stage::Installed | Stage::Failed(_) => {},
                    Stage::Replace => self.stage = Stage::Failed(UpdateError::NotReplaced(e)),
                    _ => self.stage = Stage::Failed(UpdateError::Failed(e)),
                }
            },
        }
    }
}

/// The stage after a number of steps have ended.
pub open spec fn stage_after_all(stage: StageView, ended: Seq<Option<Seq<char>>>) -> StageView
    decreases ended.len(),
{
    if ended.len() == 0 {
        stage
    } else {
        stage_after(stage_after_all(stage, ended.drop_last()), ended.last())
    }
}

/// The binary is replaced only as the last of the steps: when that step is due,
/// locating, downloading, writing and making executable have each succeeded, and
/// nothing else has happened.
pub proof fn law_replacing_comes_last(ended: Seq<Option<Seq<char>>>)
    requires
        stage_after_all(StageView::Locate, ended) == StageView::Replace,
    ensures
        ended == seq![None::<Seq<char>>, None, None, None],
{
    lemma_stage_counts_steps(ended);
}

/// How many steps lie behind a stage that no failure has ended.
spec fn steps_behind(stage: StageView) -> Option<nat> {
    match stage {
        StageView::Locate => Some(0),
        StageView::Download => Some(1),
        StageView::Write => Some(2),
        StageView::Permit => Some(3),
        StageView::Replace => Some(4),
        _ => None,
    }
}

proof fn lemma_stage_counts_steps(ended: Seq<Option<Seq<char>>>)
    ensures
        steps_behind(stage_after_all(StageView::Locate, ended)) matches Some(n) ==> n
            == ended.len() && forall|i: int| 0 <= i < n ==> ended[i] is None,
        stage_after_all(StageView::Locate, ended) is Installed ==> ended.len() >= 5 && forall|
            i: int,
        |
            0 <= i < 5 ==> ended[i] is None,
    decreases ended.len(),
{
    if ended.len() > 0 {
        let before = ended.drop_last();
        lemma_stage_counts_steps(before);
        assert(forall|i: int| 0 <= i < before.len() ==> ended[i] == before[i]);
    }
}

proof fn lemma_stage_stays(stage: StageView, ended: Seq<Option<Seq<char>>>)
    requires
        stage is Installed || stage is Failed,
    ensures
        stage_after_all(stage, ended) == stage,
    decreases ended.len(),
{
    if ended.len() > 0 {
        lemma_stage_stays(stage, ended.drop_last());
    }
}

proof fn lemma_stage_after_concat(
    stage: StageView,
    a: Seq<Option<Seq<char>>>,
    b: Seq<Option<Seq<char>>>,
)
    ensures
        stage_after_all(stage, a + b) == stage_after_all(stage_after_all(stage, a), b),
    decreases b.len(),
{
    if b.len() == 0 {
        assert(a + b == a);
    } else {
        assert((a + b).drop_last() == a + b.drop_last());
        lemma_stage_after_concat(stage, a, b.drop_last());
    }
}

/// A step that fails ends the replacement there and then with its message, and
/// nothing that comes later changes that.
pub proof fn law_failure_ends_the_replacement(
    ended: Seq<Option<Seq<char>>>,
    message: Seq<char>,
    more: Seq<Option<Seq<char>>>,
)
    requires
        ended.len() < 5,
        forall|i: int| 0 <= i < ended.len() ==> ended[i] is None,
    ensures
        stage_after_all(StageView::Locate, ended.push(Some(message)) + more)
            == StageView::Failed(
            if ended.len() == 4 {
                UpdateErrorView::NotReplaced(message)
            } else {
                UpdateErrorView::Failed(message)
            },
        ),
{
    let first = ended.push(Some(message));
    reveal_with_fuel(stage_after_all, 6);
    assert(first.drop_last() == ended);
    lemma_stage_after_concat(StageView::Locate, first, more);
    lemma_stage_stays(stage_after_all(StageView::Locate, first), more);
}

/// Five steps that succeed install the new binary.
pub proof fn law_five_steps_install(ended: Seq<Option<Seq<char>>>)
    requires
        ended.len() >= 5,
        forall|i: int| 0 <= i < 5 ==> ended[i] is None,
    ensures
        stage_after_all(StageView::Locate, ended) == StageView::Installed,
{
    let first = ended.take(5);
    reveal_with_fuel(stage_after_all, 6);
    assert(stage_after_all(StageView::Locate, first) == StageView::Installed);
    assert(first + ended.skip(5) == ended);
    lemma_stage_after_concat(StageView::Locate, first, ended.skip(5));
    lemma_stage_stays(StageView::Installed, ended.skip(5));
}

/// How far an update has come.
#[derive(Debug, PartialEq)]
pub enum Progress {
    /// The description of the latest release is to be fetched.
    Asking,
    /// The release of this version is being installed.
    Installing(String, Installation),
    /// Over; with the new version if there was one to install.
    Finished(Result<Option<String>, UpdateError>),
}

/// The model of a [`Progress`].
pub enum ProgressView {
    Asking,
    /// Version, download address and stage.
    Installing(Seq<char>, Seq<char>, StageView),
    Finished(Result<Option<Seq<char>>, UpdateErrorView>),
}

impl View for Progress {
    type V = ProgressView;

    open spec fn view(&self) -> ProgressView {
        match self {
            Progress::Asking => ProgressView::Asking,
            Progress::Installing(version, install) => ProgressView::Installing(
                version@,
                install.url@,
                install.stage@,
            ),
            Progress::Finished(Ok(Some(version))) => ProgressView::Finished(Ok(Some(version@))),
            Progress::Finished(Ok(None)) => ProgressView::Finished(Ok(None)),
            Progress::Finished(Err(e)) => ProgressView::Finished(Err(e@)),
        }
    }
}

/// The bytes that describe the latest release, or the message with which
/// fetching them failed.
pub open spec fn fetched(r: Result<Vec<u8>, String>) -> Result<Seq<u8>, Seq<char>> {
    match r {
        Ok(body) => Ok(body@),
        Err(e) => Err(e@),
    }
}

/// An update after the description of the latest release was fetched.
pub open spec fn progress_after_release(
    p: ProgressView,
    os: Seq<char>,
    arch: Seq<char>,
    r: Result<Seq<u8>, Seq<char>>,
) -> ProgressView {
    match (p, r) {
        (ProgressView::Asking, Err(e)) => ProgressView::Finished(Err(UpdateErrorView::Failed(e))),
        (ProgressView::Asking, Ok(body)) => match checked(body, os, arch) {
            Ok(Some((version, url))) => ProgressView::Installing(version, url, StageView::Locate),
            Ok(None) => ProgressView::Finished(Ok(None)),
            Err(e) => ProgressView::Finished(Err(e)),
        },
        _ => p,
    }
}

/// An update after the step that was due has ended.
pub open spec fn progress_after_step(p: ProgressView, failed: Option<Seq<char>>) -> ProgressView {
    match p {
        ProgressView::Installing(version, url, stage) => match stage_after(stage, failed) {
            StageView::Installed => ProgressView::Finished(Ok(Some(version))),
            StageView::Failed(e) => ProgressView::Finished(Err(e)),
            next => ProgressView::Installing(version, url, next),
        },
        _ => p,
    }
}

/// A check for a newer release and, where there is one, its installation.
#[derive(Debug, PartialEq)]
pub struct Update {
    pub os: String,
    pub arch: String,
    pub progress: Progress,
}

/// Whether an update for a platform has just begun.
pub open spec fn begins(u: Update, os: Seq<char>, arch: Seq<char>) -> bool {
    u.os@ == os && u.arch@ == arch && u.progress@ == ProgressView::Asking
}

/// Begins to check for a newer release for this platform, and to install it.
pub fn update_to_latest(os: &str, arch: &str) -> (r: Update)
    ensures
        begins(r, os@, arch@),
        r.os@ == os@,
        r.arch@ == arch@,
        r.progress@ == ProgressView::Asking,
{
    Update { os: os.to_owned(), arch: arch.to_owned(), progress: Progress::Asking }
}

impl Update {
    /// Takes in the description of the latest release.
    pub fn on_release(&mut self, r: Result<Vec<u8>, String>)
        ensures
            final(self).os == old(self).os,
            final(self).arch == old(self).arch,
            final(self).progress@ == progress_after_release(
                old(self).progress@,
                old(self).os@,
                old(self).arch@,
                fetched(r),
            ),
    {
        let asking = match self.progress {
            Progress::Asking => true,
            _ => false,
        };
        if !asking {
            return;
        }
        match r {
            Err(e) => {
                self.progress = Progress::Finished(Err(UpdateError::Failed(e)));
            },
            Ok(body) => match check(body.as_slice(), self.os.as_str(), self.arch.as_str()) {
                Ok(Some((version, url))) => {
                    self.progress = Progress::Installing(version, apply(url));
                },
                Ok(None) => {
                    self.progress = Progress::Finished(Ok(None));
                },
                Err(e) => {
                    self.progress = Progress::Finished(Err(e));
                },
            },
        }
    }

    /// Takes in how the step of the installation that was due has ended.
    pub fn on_step(&mut self, ended: Result<(), String>)
        ensures
            final(self).os == old(self).os,
            final(self).arch == old(self).arch,
            final(self).progress@ == progress_after_step(old(self).progress@, failure(ended)),
    {
        let mut progress = Progress::Asking;
        std::mem::swap(&mut progress, &mut self.progress);
        match progress {
            Progress::Installing(version, mut install) => {
                install.on_step(ended);
                let Installation { url, stage } = install;
                self.progress = match stage {
                    Stage::Installed => Progress::Finished(Ok(Some(version))),
                    Stage::Failed(e) => Progress::Finished(Err(e)),
                    stage => Progress::Installing(version, Installation { url, stage }),
                };
            },
            other => {
                self.progress = other;
            },
        }
    }
}

/// An update after a number of steps have ended.
pub open spec fn progress_after_steps(
    p: ProgressView,
    ended: Seq<Option<Seq<char>>>,
) -> ProgressView
    decreases ended.len(),
{
    if ended.len() == 0 {
        p
    } else {
        progress_after_step(progress_after_steps(p, ended.drop_last()), ended.last())
    }
}

proof fn lemma_progress_follows_stage(
    version: Seq<char>,
    url: Seq<char>,
    ended: Seq<Option<Seq<char>>>,
)
    ensures
        progress_after_steps(ProgressView::Installing(version, url, StageView::Locate), ended) == (
        match stage_after_all(StageView::Locate, ended) {
            StageView::Installed => ProgressView::Finished(Ok(Some(version))),
            StageView::Failed(e) => ProgressView::Finished(Err(e)),
            stage => ProgressView::Installing(version, url, stage),
        }),
    decreases ended.len(),
{
    if ended.len() > 0 {
        lemma_progress_follows_stage(version, url, ended.drop_last());
    }
}

/// A version is reported as the new one if and only if the latest release is
/// that newer version and each of the five steps of its installation succeeded.
pub proof fn law_version_is_reported_once_installed(
    body: Seq<u8>,
    os: Seq<char>,
    arch: Seq<char>,
    ended: Seq<Option<Seq<char>>>,
    version: Seq<char>,
)
    ensures
        progress_after_steps(
            progress_after_release(ProgressView::Asking, os, arch, Ok(body)),
            ended,
        ) == ProgressView::Finished(Ok(Some(version))) <==> {
            &&& checked(body, os, arch) matches Ok(Some(offered))
            &&& offered.0 == version
            &&& ended.len() >= 5
            &&& forall|i: int| 0 <= i < 5 ==> ended[i] is None
        },
{
    match checked(body, os, arch) {
        Ok(Some((v, url))) => {
            lemma_progress_follows_stage(v, url, ended);
            lemma_stage_counts_steps(ended);
            if ended.len() >= 5 && forall|i: int| 0 <= i < 5 ==> ended[i] is None {
                law_five_steps_install(ended);
            }
        },
        Ok(None) => lemma_finished_stays(Ok(None), ended),
        Err(e) => lemma_finished_stays(Err(e), ended),
    }
}

proof fn lemma_finished_stays(
    result: Result<Option<Seq<char>>, UpdateErrorView>,
    ended: Seq<Option<Seq<char>>>,
)
    ensures
        progress_after_steps(ProgressView::Finished(result), ended) == ProgressView::Finished(
            result,
        ),
    decreases ended.len(),
{
    if ended.len() > 0 {
        lemma_finished_stays(result, ended.drop_last());
    }
}

/// A release that has the version of this build, with or without a `v` before
/// it, is not offered.
pub proof fn law_own_version_is_not_offered(url: Seq<char>)
    ensures
        offer(version(), url) is None,
        offer(seq!['v'] + version(), url) is None,
{
    reveal_strlit("0.1.0");
    law_leading_v_is_passed_over(version());
}

/// What is offered is newer than this build.
pub proof fn law_offered_version_is_newer(tag: Seq<char>, url: Seq<char>)
    ensures
        offer(tag, url) matches Some(p) ==> later(semver(p.0), semver(version())) && p.1 == url,
{
    law_version_is_as_new_as_its_tag(tag, semver(version()));
}

/// What is offered is the tag from the first character on that is no `v`.
pub proof fn law_no_v_is_left_before_the_version(tag: Seq<char>, url: Seq<char>)
    ensures
        offer(tag, url) matches Some(p) ==> {
            &&& p.0.len() > 0 ==> p.0[0] != 'v'
            &&& p.0.is_suffix_of(tag)
            &&& forall|i: int| 0 <= i < tag.len() - p.0.len() ==> #[trigger] tag[i] == 'v'
        },
{
    let n = lemma_leading_split(tag, equals('v'));
    assert(stripped(tag, 'v') == tag.skip(n));
    assert forall|i: int| 0 <= i < n implies #[trigger] tag[i] == 'v' by {
        assert(equals('v')(tag[i]));
    }
}

/// A release is offered if and only if its numbers come after those of this build, and
/// it is offered with its tag, without the leading `v`, and with its address.
pub proof fn law_every_newer_release_is_offered(tag: Seq<char>, url: Seq<char>)
    ensures
        offer(tag, url) is Some <==> later(semver(tag), semver(version())),
        offer(tag, url) is Some ==> offer(tag, url) == Some((stripped(tag, 'v'), url)),
{
}

/// This build has the numbers that its version writes down.
pub proof fn law_this_build_has_its_numbers()
    ensures
        semver(version()) == (0u64, 1u64, 0u64),
{
    reveal_strlit("0.1.0");
    let zero = seq!['0'];
    let one = seq!['1'];
    assert(version() =~= zero + seq!['.'] + one + seq!['.'] + zero);
    assert(zero =~= Seq::<char>::empty().push('0'));
    assert(one =~= Seq::<char>::empty().push('1'));
    law_digits_are_decimal(Seq::empty(), '0');
    law_digits_are_decimal(Seq::empty(), '1');
    law_plain_version_is_read(zero, one, zero);
}

/// There are builds for exactly three platforms.
pub proof fn law_three_platforms_are_supported(os: Seq<char>, arch: Seq<char>, target: Seq<char>)
    ensures
        triple(os, arch) == Some(target) <==> {
            ||| os == "macos"@ && arch == "aarch64"@ && target == "aarch64-apple-darwin"@
            ||| os == "macos"@ && arch == "x86_64"@ && target == "x86_64-apple-darwin"@
            ||| os == "linux"@ && arch == "x86_64"@ && target == "x86_64-unknown-linux-gnu"@
        },
{
    reveal_strlit("macos");
    reveal_strlit("linux");
    reveal_strlit("aarch64");
    reveal_strlit("x86_64");
    assert("macos"@[0] == 'm' && "linux"@[0] == 'l');
    assert("aarch64"@.len() != "x86_64"@.len());
}

/// Whether no item has this name.
pub open spec fn unnamed(items: Seq<JsonView>, name: Seq<char>) -> bool {
    forall|k: int|
        0 <= k < items.len() ==> (#[trigger] items[k]).at("name"@) != JsonView::Text(name)
}

proof fn lemma_named(items: Seq<JsonView>, name: Seq<char>, i: int)
    ensures
        0 <= i < items.len() && items[i].at("name"@) == JsonView::Text(name) && unnamed(
            items.take(i),
            name,
        ) ==> named(items, name) == Some(items[i]),
        unnamed(items, name) ==> named(items, name) is None,
    decreases items.len(),
{
    if items.len() > 0 {
        let rest = items.drop_first();
        lemma_named(rest, name, i - 1);
        if 0 < i < items.len() && unnamed(items.take(i), name) {
            assert(items.take(i)[0] == items[0]);
            assert forall|k: int| 0 <= k < i - 1 implies (#[trigger] rest.take(i - 1)[k]).at(
                "name"@,
            ) != JsonView::Text(name) by {
                assert(rest.take(i - 1)[k] == items.take(i)[k + 1]);
            }
        }
        if unnamed(items, name) {
            assert forall|k: int| 0 <= k < rest.len() implies (#[trigger] rest[k]).at("name"@)
                != JsonView::Text(name) by {
                assert(rest[k] == items[k + 1]);
            }
        }
    }
}

/// Where a release description has a tag, and the first of its assets that is named
/// for the platform has an address, these are the tag and the address of the release.
pub proof fn law_release_is_read(
    v: JsonView,
    os: Seq<char>,
    arch: Seq<char>,
    tag: Seq<char>,
    target: Seq<char>,
    items: Seq<JsonView>,
    i: int,
    url: Seq<char>,
)
    requires
        v.at("tag_name"@) == JsonView::Text(tag),
        triple(os, arch) == Some(target),
        v.at("assets"@) == JsonView::Array(items),
        0 <= i < items.len(),
        items[i].at("name"@) == JsonView::Text("mafold-"@ + target),
        unnamed(items.take(i), "mafold-"@ + target),
        items[i].at("browser_download_url"@) == JsonView::Text(url),
    ensures
        release(v, os, arch) == Ok::<_, UpdateErrorView>((tag, url)),
{
    lemma_named(items, "mafold-"@ + target, i);
}

/// Where a release description lacks something, the error says what it lacks: first
/// the tag, then a build for the platform, then the asset for it or its address.
pub proof fn law_unusable_release_says_why(
    v: JsonView,
    os: Seq<char>,
    arch: Seq<char>,
    target: Seq<char>,
    items: Seq<JsonView>,
    i: int,
)
    ensures
        !(v.at("tag_name"@) is Text) ==> release(v, os, arch) == Err::<(Seq<char>, Seq<char>), _>(
            UpdateErrorView::NoTagName,
        ),
        v.at("tag_name"@) is Text && triple(os, arch) is None ==> release(v, os, arch) == Err::<
            (Seq<char>, Seq<char>),
            _,
        >(UpdateErrorView::UnsupportedPlatform),
        v.at("tag_name"@) is Text && triple(os, arch) == Some(target) && {
            ||| !(v.at("assets"@) is Array)
            ||| v.at("assets"@) == JsonView::Array(items) && unnamed(items, "mafold-"@ + target)
            ||| {
                &&& v.at("assets"@) == JsonView::Array(items)
                &&& 0 <= i < items.len()
                &&& items[i].at("name"@) == JsonView::Text("mafold-"@ + target)
                &&& unnamed(items.take(i), "mafold-"@ + target)
                &&& !(items[i].at("browser_download_url"@) is Text)
            }
        } ==> release(v, os, arch) == Err::<(Seq<char>, Seq<char>), _>(
            UpdateErrorView::NoAsset("mafold-"@ + target),
        ),
{
    if v.at("assets"@) == JsonView::Array(items) {
        lemma_named(items, "mafold-"@ + target, i);
    }
}

/// A check finds in a release description that is JSON the release that it gives, if it
/// is newer than this build, and its error, if it gives none; a description that is no
/// JSON is an error.
pub proof fn law_check_finds_what_is_described(
    body: Seq<u8>,
    os: Seq<char>,
    arch: Seq<char>,
    v: JsonView,
    tag: Seq<char>,
    url: Seq<char>,
    e: UpdateErrorView,
    why: Seq<char>,
)
    ensures
        bytes_json(body) == Ok::<JsonView, Seq<char>>(v) && release(v, os, arch) == Ok::<
            _,
            UpdateErrorView,
        >((tag, url)) ==> {
            &&& release_in_bytes(body, os, arch) == Ok::<_, UpdateErrorView>((tag, url))
            &&& later(semver(tag), semver(version())) ==> checked(body, os, arch) == Ok::<
                _,
                UpdateErrorView,
            >(Some((stripped(tag, 'v'), url)))
            &&& !later(semver(tag), semver(version())) ==> checked(body, os, arch) == Ok::<
                _,
                UpdateErrorView,
            >(None::<(Seq<char>, Seq<char>)>)
        },
        bytes_json(body) == Ok::<JsonView, Seq<char>>(v) && release(v, os, arch) == Err::<
            (Seq<char>, Seq<char>),
            _,
        >(e) ==> checked(body, os, arch) == Err::<Option<(Seq<char>, Seq<char>)>, _>(e)
            && release_in_bytes(body, os, arch) == Err::<(Seq<char>, Seq<char>), _>(e),
        bytes_json(body) == Err::<JsonView, Seq<char>>(why) ==> checked(body, os, arch) == Err::<
            Option<(Seq<char>, Seq<char>)>,
            _,
        >(UpdateErrorView::NotJson(why)) && release_in_bytes(body, os, arch) == Err::<
            (Seq<char>, Seq<char>),
            _,
        >(UpdateErrorView::NotJson(why)),
{
}

/// The steps of an installation that succeed come in this order: the running binary is
/// found, the new one is downloaded, written, made executable and put in place.
pub proof fn law_steps_come_in_order(ended: Seq<Option<Seq<char>>>)
    requires
        ended.len() <= 5,
        forall|i: int| 0 <= i < ended.len() ==> ended[i] is None,
    ensures
        stage_after_all(StageView::Locate, ended) == seq![
            StageView::Locate,
            StageView::Download,
            StageView::Write,
            StageView::Permit,
            StageView::Replace,
            StageView::Installed,
        ][ended.len() as int],
{
    reveal_with_fuel(stage_after_all, 7);
}

/// An update installs the very release that the check offers, and is over where it
/// offers none or fails; once the description was taken in, another changes nothing.
pub proof fn law_update_installs_what_is_offered(
    p: ProgressView,
    os: Seq<char>,
    arch: Seq<char>,
    r: Result<Seq<u8>, Seq<char>>,
    body: Seq<u8>,
    offered: (Seq<char>, Seq<char>),
    e: UpdateErrorView,
    why: Seq<char>,
)
    ensures
        p is Asking && r == Ok::<_, Seq<char>>(body) && checked(body, os, arch) == Ok::<
            _,
            UpdateErrorView,
        >(Some(offered)) ==> progress_after_release(p, os, arch, r) == ProgressView::Installing(
            offered.0,
            offered.1,
            StageView::Locate,
        ),
        p is Asking && r == Ok::<_, Seq<char>>(body) && checked(body, os, arch) == Ok::<
            _,
            UpdateErrorView,
        >(None::<(Seq<char>, Seq<char>)>) ==> progress_after_release(p, os, arch, r)
            == ProgressView::Finished(Ok(None)),
        p is Asking && r == Ok::<_, Seq<char>>(body) && checked(body, os, arch) == Err::<
            Option<(Seq<char>, Seq<char>)>,
            _,
        >(e) ==> progress_after_release(p, os, arch, r) == ProgressView::Finished(Err(e)),
        p is Asking && r == Err::<Seq<u8>, _>(why) ==> progress_after_release(p, os, arch, r)
            == ProgressView::Finished(Err(UpdateErrorView::Failed(why))),
        !(p is Asking) ==> progress_after_release(p, os, arch, r) == p,
{
}

/// An update that installs goes through the stages of the installation, with the same
/// version and address; a step that fails ends it with the message of that step, and
/// what is over, or has not begun, is not changed by steps.
pub proof fn law_update_follows_the_installation(
    version: Seq<char>,
    url: Seq<char>,
    ended: Seq<Option<Seq<char>>>,
    message: Seq<char>,
    more: Seq<Option<Seq<char>>>,
    result: Result<Option<Seq<char>>, UpdateErrorView>,
    step: Option<Seq<char>>,
)
    requires
        ended.len() < 5,
        forall|i: int| 0 <= i < ended.len() ==> ended[i] is None,
    ensures
        progress_after_steps(ProgressView::Installing(version, url, StageView::Locate), ended)
            == ProgressView::Installing(
            version,
            url,
            stage_after_all(StageView::Locate, ended),
        ),
        progress_after_steps(
            ProgressView::Installing(version, url, StageView::Locate),
            ended.push(Some(message)) + more,
        ) == ProgressView::Finished(
            Err(
                if ended.len() == 4 {
                    UpdateErrorView::NotReplaced(message)
                } else {
                    UpdateErrorView::Failed(message)
                },
            ),
        ),
        progress_after_step(ProgressView::Finished(result), step) == ProgressView::Finished(
            result,
        ),
        progress_after_step(ProgressView::Asking, step) == ProgressView::Asking,
{
    law_steps_come_in_order(ended);
    lemma_progress_follows_stage(version, url, ended);
    law_failure_ends_the_replacement(ended, message, more);
    lemma_progress_follows_stage(version, url, ended.push(Some(message)) + more);
}

/// What the user is told of a failed step is its own message, and of a missing asset
/// its name.
pub proof fn law_messages_tell_what_failed(text: Seq<char>)
    ensures
        UpdateErrorView::Failed(text).message() == text,
        UpdateErrorView::NoAsset(text).message() == "release has no asset "@ + text,
        UpdateErrorView::NotReplaced(text).message() == "failed to replace the binary"@,
        UpdateErrorView::NotJson(text).message() == "error decoding response body"@,
{
}

/// Errors, stages, progress and what is handed in are seen as they are.
pub proof fn law_updates_are_seen_as_they_are(
    e: UpdateError,
    stage: Stage,
    p: Progress,
    step: Result<(), String>,
    r: Result<Vec<u8>, String>,
    headers: Seq<(String, String)>,
)
    ensures
        e matches UpdateError::Failed(s) ==> e@ == UpdateErrorView::Failed(s@),
        e matches UpdateError::NotJson(s) ==> e@ == UpdateErrorView::NotJson(s@),
        e is NoTagName ==> e@ == UpdateErrorView::NoTagName,
        e is UnsupportedPlatform ==> e@ == UpdateErrorView::UnsupportedPlatform,
        e matches UpdateError::NoAsset(s) ==> e@ == UpdateErrorView::NoAsset(s@),
        e matches UpdateError::NotReplaced(s) ==> e@ == UpdateErrorView::NotReplaced(s@),
        stage is Locate == stage@ is Locate && stage is Download == stage@ is Download,
        stage is Write == stage@ is Write && stage is Permit == stage@ is Permit,
        stage is Replace == stage@ is Replace && stage is Installed == stage@ is Installed,
        stage matches Stage::Failed(f) ==> stage@ == StageView::Failed(f@),
        p is Asking ==> p@ == ProgressView::Asking,
        p matches Progress::Installing(version, install) ==> p@ == ProgressView::Installing(
            version@,
            install.url@,
            install.stage@,
        ),
        p matches Progress::Finished(Ok(Some(version))) ==> p@ == ProgressView::Finished(
            Ok(Some(version@)),
        ),
        p matches Progress::Finished(Ok(None)) ==> p@ == ProgressView::Finished(Ok(None)),
        p matches Progress::Finished(Err(f)) ==> p@ == ProgressView::Finished(Err(f@)),
        step is Ok ==> failure(step) is None,
        step matches Err(s) ==> failure(step) == Some(s@),
        r matches Ok(body) ==> fetched(r) == Ok::<_, Seq<char>>(body@),
        r matches Err(s) ==> fetched(r) == Err::<Seq<u8>, _>(s@),
        header_texts(headers).len() == headers.len(),
        forall|i: int|
            0 <= i < headers.len() ==> #[trigger] header_texts(headers)[i] == (
                headers[i].0@,
                headers[i].1@,
            ),
{
}

/// An update begins by asking for the latest release for the very platform that is given,
/// and then installs what the check offers for that platform.
pub proof fn law_update_is_for_the_given_platform(
    u: Update,
    os: Seq<char>,
    arch: Seq<char>,
    body: Seq<u8>,
    offered: (Seq<char>, Seq<char>),
)
    requires
        begins(u, os, arch),
        checked(body, os, arch) == Ok::<_, UpdateErrorView>(Some(offered)),
    ensures
        u.os@ == os && u.arch@ == arch && u.progress is Asking,
        progress_after_release(u.progress@, u.os@, u.arch@, Ok(body)) == ProgressView::Installing(
            offered.0,
            offered.1,
            StageView::Locate,
        ),
{
}

} // verus!
