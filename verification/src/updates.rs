//! Looking for a newer release, once a day.
use vstd::prelude::*;

use crate::text::{
    ascii_lowercase, concat2, concat3, concat4, lowercased, opt_text, same_text, trim, trimmed,
};

verus! {

pub const UPDATE_CHANNEL: &'static str = "stable";

pub const RELEASES_DOWNLOAD_BASE: &'static str =
    "https://github.com/peters/horizon/releases/download";

/// A day.
pub const UPDATE_CHECK_INTERVAL_MS: u64 = 86_400_000;

#[derive(Clone, Copy, Debug, PartialEq, Eq, Structural)]
pub enum StorageProvider {
    GitHubReleases,
}

/// The installers of a release.
pub open spec fn asset_of(rid: Seq<char>) -> Option<Seq<char>> {
    if rid == "linux-x64"@ {
        Some("horizon-installer-linux-x64.bin"@)
    } else if rid == "osx-arm64"@ {
        Some("horizon-installer-osx-arm64.bin"@)
    } else if rid == "osx-x64"@ {
        Some("horizon-installer-osx-x64.bin"@)
    } else if rid == "win-x64"@ {
        Some("horizon-installer-win-x64.exe"@)
    } else {
        None
    }
}

pub open spec fn opt_str(value: Option<&str>) -> Option<Seq<char>> {
    match value {
        Some(s) => Some(s@),
        None => None,
    }
}

pub fn installer_asset_name(rid: &str) -> (asset: Option<&'static str>)
    ensures
        opt_str(asset) == asset_of(rid@),
{
    if same_text(rid, "linux-x64") {
        Some("horizon-installer-linux-x64.bin")
    } else if same_text(rid, "osx-arm64") {
        Some("horizon-installer-osx-arm64.bin")
    } else if same_text(rid, "osx-x64") {
        Some("horizon-installer-osx-x64.bin")
    } else if same_text(rid, "win-x64") {
        Some("horizon-installer-win-x64.exe")
    } else {
        None
    }
}

/// The platform's name among the releases, by its system and its processor.
pub open spec fn rid_of(os: Seq<char>, arch: Seq<char>) -> Option<Seq<char>> {
    if os == "linux"@ && arch == "x86_64"@ {
        Some("linux-x64"@)
    } else if os == "macos"@ && arch == "aarch64"@ {
        Some("osx-arm64"@)
    } else if os == "macos"@ && arch == "x86_64"@ {
        Some("osx-x64"@)
    } else if os == "windows"@ && arch == "x86_64"@ {
        Some("win-x64"@)
    } else {
        None
    }
}

pub fn current_release_rid(os: &str, arch: &str) -> (rid: Option<&'static str>)
    ensures
        opt_str(rid) == rid_of(os@, arch@),
{
    let x64 = same_text(arch, "x86_64");
    if same_text(os, "linux") && x64 {
        Some("linux-x64")
    } else if same_text(os, "macos") && same_text(arch, "aarch64") {
        Some("osx-arm64")
    } else if same_text(os, "macos") && x64 {
        Some("osx-x64")
    } else if same_text(os, "windows") && x64 {
        Some("win-x64")
    } else {
        None
    }
}

/// Every platform that has a name among the releases has an installer.
pub proof fn law_named_platforms_have_installers(os: Seq<char>, arch: Seq<char>)
    requires
        rid_of(os, arch) is Some,
    ensures
        asset_of(rid_of(os, arch)->0) is Some,
{
}

pub open spec fn url_of(version: Seq<char>, asset: Seq<char>) -> Seq<char> {
    RELEASES_DOWNLOAD_BASE@ + "/v"@ + version + ("/"@ + asset)
}

pub fn installer_download_url(version: &str, installer_asset: &str) -> (url: String)
    ensures
        url@ == url_of(version@, installer_asset@),
        url@ == "https://github.com/peters/horizon/releases/download"@ + "/v"@ + version@ + ("/"@
            + installer_asset@),
{
    let file = concat2("/", installer_asset);
    concat4(RELEASES_DOWNLOAD_BASE, "/v", version, file.as_str())
}

pub open spec fn github_provider(raw: Seq<char>) -> bool {
    let name = ascii_lowercase(trim(raw));
    name == "github"@ || name == "github_releases"@ || name == "githubreleases"@
}

/// Only releases on GitHub can be checked; the error names what was given.
pub fn parse_storage_provider(raw: &str) -> (provider: Result<StorageProvider, String>)
    ensures
        provider is Ok <==> github_provider(raw@),
        provider matches Err(error) ==> error@ == "unsupported Surge storage provider for updates: "@
            + ascii_lowercase(trim(raw@)),
{
    let plain = trimmed(raw);
    let name = lowercased(plain.as_str());
    if same_text(name.as_str(), "github") || same_text(name.as_str(), "github_releases")
        || same_text(name.as_str(), "githubreleases") {
        Ok(StorageProvider::GitHubReleases)
    } else {
        Err(concat2("unsupported Surge storage provider for updates: ", name.as_str()))
    }
}

/// What a check begins with: the installer that this platform would get, and
/// where releases are kept. A platform without an installer has nothing to
/// check; an unknown store is an error.
pub fn check_plan(os: &str, arch: &str, provider: &str) -> (plan: Result<
    Option<(StorageProvider, &'static str)>,
    String,
>)
    ensures
        match rid_of(os@, arch@) {
            None => plan == Ok::<Option<(StorageProvider, &'static str)>, String>(None),
            Some(rid) => if github_provider(provider@) {
                plan matches Ok(Some((_, asset))) && Some(asset@) == asset_of(rid)
            } else {
                plan matches Err(error) && error@
                    == "unsupported Surge storage provider for updates: "@ + ascii_lowercase(
                    trim(provider@),
                )
            },
        },
{
    proof {
        if rid_of(os@, arch@) is Some {
            law_named_platforms_have_installers(os@, arch@);
        }
    }
    match current_release_rid(os, arch) {
        None => Ok(None),
        Some(rid) => match installer_asset_name(rid) {
            None => Ok(None),
            Some(asset) => match parse_storage_provider(provider) {
                Ok(store) => Ok(Some((store, asset))),
                Err(error) => Err(error),
            },
        },
    }
}

pub struct AvailableUpdatePrompt {
    pub latest_version: String,
    pub installer_url: String,
    pub error_message: Option<String>,
}

pub struct PromptView {
    pub latest_version: Seq<char>,
    pub installer_url: Seq<char>,
    pub error_message: Option<Seq<char>>,
}

impl View for AvailableUpdatePrompt {
    type V = PromptView;

    open spec fn view(&self) -> PromptView {
        PromptView {
            latest_version: self.latest_version@,
            installer_url: self.installer_url@,
            error_message: opt_text(self.error_message),
        }
    }
}

/// The prompt for a release that was found.
pub fn prompt_for(latest_version: &str, installer_asset: &str) -> (prompt: AvailableUpdatePrompt)
    ensures
        prompt@ == (PromptView {
            latest_version: latest_version@,
            installer_url: url_of(latest_version@, installer_asset@),
            error_message: None,
        }),
{
    AvailableUpdatePrompt {
        latest_version: latest_version.to_string(),
        installer_url: installer_download_url(latest_version, installer_asset),
        error_message: None,
    }
}

pub fn update_check_is_due(now_ms: u64, next_due_ms: u64) -> (due: bool)
    ensures
        due == (now_ms >= next_due_ms),
{
    now_ms >= next_due_ms
}

pub fn next_update_check_deadline(now_ms: u64) -> (deadline_ms: u64)
    requires
        now_ms <= u64::MAX - UPDATE_CHECK_INTERVAL_MS,
    ensures
        deadline_ms == now_ms + UPDATE_CHECK_INTERVAL_MS,
        deadline_ms == now_ms + 86_400_000,
{
    now_ms + UPDATE_CHECK_INTERVAL_MS
}

/// What is known of how the program was installed.
#[derive(Clone, Copy, Debug, PartialEq, Eq, Structural)]
pub struct ManagedInstall {
    pub stable_channel: bool,
    pub github_releases: bool,
}

pub enum UpdateCheckMessage {
    Available(AvailableUpdatePrompt),
    Unavailable,
    Error(String),
    /// The check ended without a word.
    Disconnected,
}

/// The checks and the prompt.
pub struct UpdateState {
    pub managed_install: Option<ManagedInstall>,
    pub next_check_at_ms: Option<u64>,
    pub checking: bool,
    pub prompt: Option<AvailableUpdatePrompt>,
}

pub struct UpdateView {
    pub managed_install: Option<ManagedInstall>,
    pub next_check_at_ms: Option<u64>,
    pub checking: bool,
    pub prompt: Option<PromptView>,
}

impl View for UpdateState {
    type V = UpdateView;

    open spec fn view(&self) -> UpdateView {
        UpdateView {
            managed_install: self.managed_install,
            next_check_at_ms: self.next_check_at_ms,
            checking: self.checking,
            prompt: match self.prompt {
                Some(p) => Some(p@),
                None => None,
            },
        }
    }
}

impl UpdateView {
    /// A check starts for an install of the stable channel from GitHub that is
    /// due, while none runs and no release is offered.
    pub open spec fn starts(self, now_ms: u64) -> bool {
        &&& self.managed_install matches Some(install) && install.stable_channel
            && install.github_releases
        &&& self.next_check_at_ms matches Some(due) && now_ms >= due
        &&& !self.checking
        &&& self.prompt is None
    }

    pub open spec fn after_start(self, now_ms: u64) -> UpdateView {
        if self.starts(now_ms) {
            UpdateView {
                next_check_at_ms: Some((now_ms + UPDATE_CHECK_INTERVAL_MS) as u64),
                checking: true,
                ..self
            }
        } else {
            self
        }
    }

    pub open spec fn heard(self, message: Option<UpdateCheckMessage>) -> UpdateView {
        if self.checking {
            match message {
                Some(UpdateCheckMessage::Available(prompt)) => UpdateView {
                    prompt: Some(prompt@),
                    checking: false,
                    ..self
                },
                Some(_) => UpdateView { checking: false, ..self },
                None => self,
            }
        } else {
            self
        }
    }

    pub open spec fn answered(self, download: Option<Result<(), String>>, dismiss: bool) -> UpdateView {
        match self.prompt {
            None => self,
            Some(prompt) => match download {
                Some(Ok(_)) => UpdateView { prompt: None, ..self },
                Some(Err(error)) => UpdateView {
                    prompt: Some(PromptView { error_message: Some(error@), ..prompt }),
                    ..self
                },
                None => if dismiss {
                    UpdateView { prompt: None, ..self }
                } else {
                    self
                },
            },
        }
    }

    /// What happens to the checks, one thing after the other.
    pub open spec fn through(self, events: Seq<UpdateEvent>) -> UpdateView
        decreases events.len(),
    {
        if events.len() == 0 {
            self
        } else {
            let before = self.through(events.drop_last());
            match events.last() {
                UpdateEvent::Tick { now_ms } => before.after_start(now_ms),
                UpdateEvent::Said { message } => before.heard(message),
                UpdateEvent::Answered { download, dismiss } => before.answered(download, dismiss),
            }
        }
    }
}

pub enum UpdateEvent {
    Tick { now_ms: u64 },
    Said { message: Option<UpdateCheckMessage> },
    Answered { download: Option<Result<(), String>>, dismiss: bool },
}

impl UpdateState {
    /// Says whether a check is to run now.
    pub fn maybe_start_update_check(&mut self, now_ms: u64) -> (start: bool)
        requires
            now_ms <= u64::MAX - UPDATE_CHECK_INTERVAL_MS,
        ensures
            start == old(self)@.starts(now_ms),
            final(self)@ == old(self)@.after_start(now_ms),
    {
        let install = match self.managed_install {
            None => {
                return false;
            },
            Some(install) => install,
        };
        let due = match self.next_check_at_ms {
            None => {
                return false;
            },
            Some(due) => due,
        };
        if !install.stable_channel || !install.github_releases {
            return false;
        }
        if self.checking || self.prompt.is_some() {
            return false;
        }
        if !update_check_is_due(now_ms, due) {
            return false;
        }
        self.next_check_at_ms = Some(next_update_check_deadline(now_ms));
        self.checking = true;
        true
    }

    /// Takes what a running check says. A failed one is over as well; the error
    /// is handed back for the log.
    pub fn poll_update_check(&mut self, message: Option<UpdateCheckMessage>) -> (error: Option<
        String,
    >)
        ensures
            final(self)@ == old(self)@.heard(message),
            opt_text(error) == match message {
                Some(UpdateCheckMessage::Error(error)) => if old(self).checking {
                    Some(error@)
                } else {
                    None
                },
                _ => None,
            },
    {
        if !self.checking {
            return None;
        }
        match message {
            Some(UpdateCheckMessage::Available(prompt)) => {
                self.prompt = Some(prompt);
                self.checking = false;
                None
            },
            Some(UpdateCheckMessage::Unavailable) | Some(UpdateCheckMessage::Disconnected) => {
                self.checking = false;
                None
            },
            Some(UpdateCheckMessage::Error(error)) => {
                self.checking = false;
                Some(error)
            },
            None => None,
        }
    }

    /// The answer to the prompt: `download` holds what opening the installer's
    /// page came to, where that was asked for. A page that did not open leaves
    /// the prompt with the error.
    pub fn answer_prompt(&mut self, download: Option<Result<(), String>>, dismiss: bool)
        ensures
            final(self)@ == old(self)@.answered(download, dismiss),
    {
        if self.prompt.is_none() {
            return ;
        }
        match download {
            Some(Ok(_)) => {
                self.prompt = None;
            },
            Some(Err(error)) => {
                if let Some(prompt) = self.prompt.take() {
                    self.prompt = Some(
                        AvailableUpdatePrompt {
                            latest_version: prompt.latest_version,
                            installer_url: prompt.installer_url,
                            error_message: Some(error),
                        },
                    );
                }
            },
            None => {
                if dismiss {
                    self.prompt = None;
                }
            },
        }
    }
}

/// After a check has started no other starts for a day, whatever becomes of it
/// and of its prompt.
pub proof fn law_checks_are_a_day_apart(
    state: UpdateView,
    now_ms: u64,
    events: Seq<UpdateEvent>,
    later_ms: u64,
)
    requires
        state.starts(now_ms),
        now_ms <= u64::MAX - UPDATE_CHECK_INTERVAL_MS,
        forall|i: int|
            0 <= i < events.len() ==> (#[trigger] events[i] matches UpdateEvent::Tick { now_ms: t }
                ==> t < now_ms + UPDATE_CHECK_INTERVAL_MS),
        later_ms < now_ms + UPDATE_CHECK_INTERVAL_MS,
    ensures
        !state.after_start(now_ms).through(events).starts(later_ms),
        state.after_start(now_ms).through(events).next_check_at_ms == Some(
            (now_ms + UPDATE_CHECK_INTERVAL_MS) as u64,
        ),
    decreases events.len(),
{
    if events.len() > 0 {
        let rest = events.drop_last();
        assert forall|i: int| 0 <= i < rest.len() implies (#[trigger] rest[i] matches
            UpdateEvent::Tick { now_ms: t } ==> t < now_ms + UPDATE_CHECK_INTERVAL_MS) by {
            assert(rest[i] == events[i]);
        }
        let last = events[events.len() - 1];
        if let UpdateEvent::Tick { now_ms: t } = last {
            law_checks_are_a_day_apart(state, now_ms, rest, t);
        } else {
            law_checks_are_a_day_apart(state, now_ms, rest, later_ms);
        }
    }
}

pub fn prompt_title(latest_version: &str) -> (title: String)
    ensures
        title@ == "Horizon "@ + latest_version@ + " is available."@,
{
    concat3("Horizon ", latest_version, " is available.")
}

/// The program that opens a page, and what stands before the page's address
/// among its arguments.
pub fn open_command(os: &str) -> (command: (&'static str, Vec<&'static str>))
    ensures
        command.0@ == if os@ == "windows"@ {
            "cmd"@
        } else if os@ == "macos"@ {
            "open"@
        } else {
            "xdg-open"@
        },
        command.1@.len() == if os@ == "windows"@ {
            3nat
        } else {
            0nat
        },
        os@ == "windows"@ ==> command.1@[0]@ == "/C"@ && command.1@[1]@ == "start"@
            && command.1@[2]@ == ""@,
{
    let mut args: Vec<&'static str> = Vec::new();
    if same_text(os, "windows") {
        args.push("/C");
        args.push("start");
        args.push("");
        ("cmd", args)
    } else if same_text(os, "macos") {
        ("open", args)
    } else {
        ("xdg-open", args)
    }
}

pub fn open_error(error: &str) -> (text: String)
    ensures
        text@ == "failed to open installer download: "@ + error@,
{
    concat2("failed to open installer download: ", error)
}

/// Each platform that is released for has its own installer, and no other has
/// one.
pub proof fn law_platforms_get_their_own_installer(os: Seq<char>, arch: Seq<char>)
    ensures
        ({
            let rid = rid_of(os, arch);
            let asset = if rid is Some {
                asset_of(rid->0)
            } else {
                None
            };
            &&& os == "linux"@ && arch == "x86_64"@ ==> rid == Some("linux-x64"@) && asset == Some(
                "horizon-installer-linux-x64.bin"@,
            )
            &&& os == "macos"@ && arch == "aarch64"@ ==> rid == Some("osx-arm64"@) && asset == Some(
                "horizon-installer-osx-arm64.bin"@,
            )
            &&& os == "macos"@ && arch == "x86_64"@ ==> rid == Some("osx-x64"@) && asset == Some(
                "horizon-installer-osx-x64.bin"@,
            )
            &&& os == "windows"@ && arch == "x86_64"@ ==> rid == Some("win-x64"@) && asset == Some(
                "horizon-installer-win-x64.exe"@,
            )
            &&& rid is Some ==> arch == "x86_64"@ || (arch == "aarch64"@ && os == "macos"@)
            &&& rid is Some ==> os == "linux"@ || os == "macos"@ || os == "windows"@
        }),
{
    reveal_strlit("linux");
    reveal_strlit("macos");
    reveal_strlit("windows");
    reveal_strlit("x86_64");
    reveal_strlit("aarch64");
    reveal_strlit("linux-x64");
    reveal_strlit("osx-arm64");
    reveal_strlit("osx-x64");
    reveal_strlit("win-x64");
    assert("linux"@[0] == 'l' && "macos"@[0] == 'm' && "windows"@[0] == 'w');
    assert("x86_64"@.len() == 6 && "aarch64"@.len() == 7);
    assert("linux-x64"@[0] == 'l' && "osx-arm64"@[0] == 'o' && "osx-x64"@[0] == 'o'
        && "win-x64"@[0] == 'w');
    assert("osx-arm64"@.len() == 9 && "osx-x64"@.len() == 7);
}

/// An installer lies under its release's tag, which is the version after a `v`.
pub proof fn law_installers_lie_under_their_version(version: Seq<char>, asset: Seq<char>)
    ensures
        url_of(version, asset) == "https://github.com/peters/horizon/releases/download"@ + "/v"@
            + version + ("/"@ + asset),
{
}

/// Releases on GitHub are known by three names, in small letters or capitals and
/// with space around them or not; no other store is.
pub proof fn law_github_has_three_names(raw: Seq<char>)
    ensures
        github_provider(raw) <==> ascii_lowercase(trim(raw)) == "github"@ || ascii_lowercase(
            trim(raw),
        ) == "github_releases"@ || ascii_lowercase(trim(raw)) == "githubreleases"@,
{
}

/// A check starts for a managed install of the stable channel from GitHub when it
/// is due, one at a time, and not while a release is offered; the next is due a
/// day later.
pub proof fn law_checks_start_when_due(state: UpdateView, now_ms: u64)
    requires
        now_ms <= u64::MAX - 86_400_000,
    ensures
        ({
            let starts = state.starts(now_ms);
            let after = state.after_start(now_ms);
            &&& starts <==> (state.managed_install is Some && state.managed_install->0.stable_channel
                && state.managed_install->0.github_releases && state.next_check_at_ms is Some
                && now_ms >= state.next_check_at_ms->0 && !state.checking && state.prompt is None)
            &&& starts ==> after.checking && after.next_check_at_ms is Some
                && after.next_check_at_ms->0 == now_ms + 86_400_000
            &&& !starts ==> after == state
            &&& after.prompt == state.prompt && after.managed_install == state.managed_install
        }),
{
}

/// A release that a check found is offered; every other end of a check offers
/// nothing, and what no check said is not heard.
pub proof fn law_found_releases_are_offered(state: UpdateView, message: UpdateCheckMessage)
    ensures
        ({
            let after = state.heard(Some(message));
            &&& !state.checking ==> after == state
            &&& state.checking ==> !after.checking && after.next_check_at_ms
                == state.next_check_at_ms
            &&& state.checking && message is Available ==> after.prompt == Some(
                message->Available_0@,
            )
            &&& state.checking && !(message is Available) ==> after.prompt == state.prompt
            &&& state.heard(None) == state
        }),
{
}

/// A prompt goes away once its page opened or it was dismissed; a page that did
/// not open leaves it with the error.
pub proof fn law_prompts_go_away_when_answered(
    state: UpdateView,
    error: String,
    dismiss: bool,
)
    requires
        state.prompt is Some,
    ensures
        state.answered(Some(Ok(())), dismiss).prompt is None,
        state.answered(None, true).prompt is None,
        state.answered(None, false) == state,
        ({
            let after = state.answered(Some(Err(error)), dismiss).prompt;
            &&& after is Some
            &&& after->0.error_message == Some(error@)
            &&& after->0.latest_version == state.prompt->0.latest_version
            &&& after->0.installer_url == state.prompt->0.installer_url
        }),
{
}

/// What is said of a prompt is said of what it holds.
pub proof fn law_available_update_prompt_is_seen_as_it_is(value: AvailableUpdatePrompt)
    ensures
        value@.latest_version == value.latest_version@,
        value@.installer_url == value.installer_url@,
        value@.error_message == opt_text(value.error_message),
{
}

/// What is said of the checks is said of what they hold.
pub proof fn law_update_state_is_seen_as_it_is(value: UpdateState)
    ensures
        value@.managed_install == value.managed_install,
        value@.next_check_at_ms == value.next_check_at_ms,
        value@.checking == value.checking,
        value.prompt is None ==> value@.prompt is None,
        value.prompt matches Some(prompt) ==> value@.prompt == Some(prompt@),
        opt_str(None) is None,
{
}

} // verus!
