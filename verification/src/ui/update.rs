//! The dialog that looks for updates and installs them.

use vstd::prelude::*;

verus! {

/// What the dialog says while it looks.
pub const CHECKING_TEXT: &'static str = "Checking for updates...";

/// What the dialog's button says.
pub const DOWNLOAD_LABEL: &'static str = "Download Update";

pub const DOWNLOADING_LABEL: &'static str = "Downloading...";

pub const INSTALL_LABEL: &'static str = "Install and Restart";

/// What the dialog says after a download, and when it hands over.
pub const READY_TEXT: &'static str = "Download complete. Ready to install.";

pub const STARTING_TEXT: &'static str = "Starting upgrade...";

/// Where the search for an update stands. A path leads to the program that was
/// downloaded.
#[derive(Debug)]
pub enum UpdateState {
    Checking,
    NoUpdate,
    UpdateAvailable,
    Downloaded(String),
    /// There is an update, but it cannot be installed from here.
    ManualOnly,
    Error(String),
}

/// What the search found.
#[derive(Debug)]
pub enum CheckResult {
    Available { version: String, release_notes: String },
    UpToDate,
    /// There is a newer version, but none for this platform.
    UnsupportedPlatform,
    Failed(String),
}

/// What the dialog then shows.
#[derive(Debug)]
pub struct CheckView {
    pub state: UpdateState,
    pub status: String,
    pub offers_download: bool,
    pub release_notes: Option<String>,
}

/// What is said about an update that cannot be installed from here.
pub open spec fn manual_text(version: Option<Seq<char>>) -> Seq<char> {
    (match version {
        Some(version) => "Version "@ + version + " is available"@,
        None => "A newer version is available"@,
    })
        + ". Automatic installation is not available on this platform yet; install it from GitHub Releases or your package manager."@
}

pub fn manual_update_message(version: Option<&str>) -> (message: String)
    ensures
        message@ == manual_text(
            match version {
                Some(version) => Some(version@),
                None => None,
            },
        ),
{
    let mut message = match version {
        Some(version) => {
            let mut known = "Version ".to_owned();
            known.append(version);
            known.append(" is available");
            known
        },
        None => "A newer version is available".to_owned(),
    };
    message.append(
        ". Automatic installation is not available on this platform yet; install it from GitHub Releases or your package manager.",
    );
    message
}

/// What the dialog says about a result, for a program with a version.
pub open spec fn status_text(result: CheckResult, installs: bool, current: Seq<char>) -> Seq<char> {
    match result {
        CheckResult::Available { version, .. } => if installs {
            "Version "@ + version@ + " is available (current: "@ + current + ")"@
        } else {
            manual_text(Some(version@))
        },
        CheckResult::UpToDate => "You're running the latest version ("@ + current + ")"@,
        CheckResult::UnsupportedPlatform => manual_text(None),
        CheckResult::Failed(error) => "Error checking for updates: "@ + error@,
    }
}

/// Where the search stands after a result.
pub open spec fn state_shows(state: UpdateState, result: CheckResult, installs: bool) -> bool {
    match result {
        CheckResult::Available { .. } => if installs {
            state is UpdateAvailable
        } else {
            state is ManualOnly
        },
        CheckResult::UpToDate => state is NoUpdate,
        CheckResult::UnsupportedPlatform => state is ManualOnly,
        CheckResult::Failed(error) => state matches UpdateState::Error(own) && own@ == error@,
    }
}

/// What a click on the dialog's button does, as a value.
pub open spec fn click_does(step: ButtonStep, state: UpdateState) -> bool {
    match state {
        UpdateState::UpdateAvailable => step is Download,
        UpdateState::Downloaded(path) => step matches ButtonStep::Upgrade(own) && own@ == path@,
        _ => step is Nothing,
    }
}

/// A click downloads exactly where an update was found that can be installed from here,
/// and installs exactly what was downloaded; it does nothing while the search goes on,
/// after a failure, and where the user has to install by hand.
pub proof fn law_updates_are_installed_after_the_download(
    state: UpdateState,
    result: CheckResult,
    installs: bool,
    step: ButtonStep,
    path: String,
)
    ensures
        state_shows(state, result, installs) && click_does(step, state) ==> (step is Download
            <==> result is Available && installs),
        state_shows(state, result, installs) && click_does(step, state) ==> !(step is Upgrade),
        click_does(step, UpdateState::Downloaded(path)) ==> (step matches ButtonStep::Upgrade(own)
            && own@ == path@),
        click_does(step, UpdateState::Checking) ==> step is Nothing,
        click_does(step, UpdateState::Error(path)) ==> step is Nothing,
        state_shows(state, CheckResult::Failed(path), installs) ==> (state matches UpdateState::Error(
            own,
        ) && own@ == path@),
        state_shows(state, CheckResult::UpToDate, installs) <==> state is NoUpdate,
{
}

/// The dialog tells the version that was found, with the current one beside it where it
/// can be installed, and the error where the search failed.
pub proof fn law_status_tells_the_version(
    version: String,
    release_notes: String,
    current: Seq<char>,
    error: String,
)
    ensures
        ({
            let found = CheckResult::Available { version, release_notes };
            let offered = status_text(found, true, current);
            let manual = status_text(found, false, current);
            let latest = status_text(CheckResult::UpToDate, true, current);
            &&& offered.subrange(8, 8int + version@.len()) == version@
            &&& offered.subrange(32int + version@.len(), 32int + version@.len() + current.len())
                == current
            &&& manual.subrange(8, 8int + version@.len()) == version@
            &&& latest.subrange(35, 35int + current.len()) == current
            &&& status_text(CheckResult::Failed(error), true, current).skip(28) == error@
            &&& status_text(CheckResult::UnsupportedPlatform, true, current) == manual_text(None)
        }),
{
    reveal_strlit("Version ");
    reveal_strlit(" is available (current: ");
    reveal_strlit(" is available");
    reveal_strlit("You're running the latest version (");
    reveal_strlit("Error checking for updates: ");
    let found = CheckResult::Available { version, release_notes };
    let offered = status_text(found, true, current);
    let manual = status_text(found, false, current);
    let latest = status_text(CheckResult::UpToDate, true, current);
    assert(offered.subrange(8, 8int + version@.len()) =~= version@);
    assert(offered.subrange(32int + version@.len(), 32int + version@.len() + current.len()) =~= current);
    assert(manual.subrange(8, 8int + version@.len()) =~= version@);
    assert(latest.subrange(35, 35int + current.len()) =~= current);
    assert(status_text(CheckResult::Failed(error), true, current).skip(28) =~= error@);
}

/// What the dialog shows about a result. `installs` says whether updates can be
/// installed from here.
pub fn check_finished(result: &CheckResult, installs: bool, current: &str) -> (view: CheckView)
    ensures
        view.status@ == status_text(*result, installs, current@),
        view.offers_download == (installs && *result is Available),
        match *result {
            CheckResult::Available { release_notes, .. } => match view.release_notes {
                Some(notes) => release_notes@.len() > 0 && notes@ == release_notes@,
                None => release_notes@.len() == 0,
            },
            _ => view.release_notes is None,
        },
        state_shows(view.state, *result, installs),
{
    match result {
        CheckResult::Available { version, release_notes } => {
            let notes = if release_notes.as_str().is_empty() {
                None
            } else {
                Some(release_notes.as_str().to_owned())
            };
            if installs {
                let mut status = "Version ".to_owned();
                status.append(version.as_str());
                status.append(" is available (current: ");
                status.append(current);
                status.append(")");
                CheckView {
                    state: UpdateState::UpdateAvailable,
                    status,
                    offers_download: true,
                    release_notes: notes,
                }
            } else {
                CheckView {
                    state: UpdateState::ManualOnly,
                    status: manual_update_message(Some(version.as_str())),
                    offers_download: false,
                    release_notes: notes,
                }
            }
        },
        CheckResult::UpToDate => {
            let mut status = "You're running the latest version (".to_owned();
            status.append(current);
            status.append(")");
            CheckView {
                state: UpdateState::NoUpdate,
                status,
                offers_download: false,
                release_notes: None,
            }
        },
        CheckResult::UnsupportedPlatform => CheckView {
            state: UpdateState::ManualOnly,
            status: manual_update_message(None),
            offers_download: false,
            release_notes: None,
        },
        CheckResult::Failed(error) => {
            let mut status = "Error checking for updates: ".to_owned();
            status.append(error.as_str());
            CheckView {
                state: UpdateState::Error(error.as_str().to_owned()),
                status,
                offers_download: false,
                release_notes: None,
            }
        },
    }
}

/// What a click on the dialog's button does.
#[derive(Debug)]
pub enum ButtonStep {
    Nothing,
    Download,
    /// Hand over to the program at this path.
    Upgrade(String),
}

/// What a click on the dialog's button does: an update is downloaded first, and
/// then installed.
pub fn button_clicked(state: &UpdateState) -> (step: ButtonStep)
    ensures
        click_does(step, *state),
{
    match state {
        UpdateState::UpdateAvailable => ButtonStep::Download,
        UpdateState::Downloaded(path) => ButtonStep::Upgrade(path.as_str().to_owned()),
        _ => ButtonStep::Nothing,
    }
}

/// What the dialog shows after a download.
#[derive(Debug)]
pub struct DownloadView {
    pub state: UpdateState,
    pub status: String,
    /// What the button says; without it the button goes away.
    pub button: Option<&'static str>,
}

/// A dialog shows how a download ended.
pub open spec fn shows_download(result: Result<String, String>, view: DownloadView) -> bool {
    match result {
        Ok(path) => {
            &&& view.state == UpdateState::Downloaded(path)
            &&& view.status@ == READY_TEXT@
            &&& view.button matches Some(label) && label@ == INSTALL_LABEL@
        },
        Err(error) => {
            &&& view.status@ == "Download failed: "@ + error@
            &&& view.state matches UpdateState::Error(text) && text@ == view.status@
            &&& view.button is None
        },
    }
}

/// A download that led to a program offers to install just that program; one that failed
/// offers nothing, and ends its status with the error.
pub proof fn law_downloads_offer_what_they_led_to(
    path: String,
    error: String,
    done: DownloadView,
    failed: DownloadView,
)
    requires
        shows_download(Ok(path), done),
        shows_download(Err(error), failed),
    ensures
        done.state == UpdateState::Downloaded(path),
        done.status@ == "Download complete. Ready to install."@,
        done.button matches Some(label) && label@ == "Install and Restart"@,
        failed.button is None,
        failed.state is Error,
        failed.status@.skip(17) == error@,
        failed.status@.take(17) == "Download failed: "@,
{
    reveal_strlit("Download failed: ");
    assert(failed.status@.skip(17) =~= error@);
    assert(failed.status@.take(17) =~= "Download failed: "@);
}

/// What the dialog shows after a download that led to a program, or that failed.
pub fn download_finished(result: Result<String, String>) -> (view: DownloadView)
    ensures
        shows_download(result, view),
{
    match result {
        Ok(path) => DownloadView {
            state: UpdateState::Downloaded(path),
            status: READY_TEXT.to_owned(),
            button: Some(INSTALL_LABEL),
        },
        Err(error) => {
            let mut status = "Download failed: ".to_owned();
            status.append(error.as_str());
            let text = status.as_str().to_owned();
            DownloadView { state: UpdateState::Error(text), status, button: None }
        },
    }
}

/// The dialog says what it does at each of its steps.
pub proof fn law_steps_of_an_update_are_named()
    ensures
        CHECKING_TEXT@ == "Checking for updates..."@,
        DOWNLOAD_LABEL@ == "Download Update"@,
        DOWNLOADING_LABEL@ == "Downloading..."@,
        STARTING_TEXT@ == "Starting upgrade..."@,
{
}

} // verus!
