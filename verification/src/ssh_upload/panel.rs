//! The upload panel: what it shows and what its buttons do.
use vstd::prelude::*;

use super::listing::{browser_path, join_remote_browser_path};
use crate::text::{
    chars_of, concat3, control, decimal, decimal_of, is_control, opt_text, string_of, trim,
    trimmed,
};

verus! {

/// More files than this are counted instead of named.
pub const MAX_FILE_PILLS: usize = 6;

/// A file's pill shows at most this many scalars of its name.
pub const PILL_NAME_CHARS: usize = 20;

#[derive(Clone, Copy, Debug, PartialEq, Eq, Structural)]
pub enum UploadTransportChoice {
    Ssh,
    Taildrop,
}

#[derive(Clone, Copy, Debug, PartialEq, Eq, Structural)]
pub enum UploadUiAction {
    Close,
    StartUpload,
    CancelUpload,
    BackToReady,
}

#[derive(Clone, Copy, Debug, PartialEq, Eq, Structural)]
pub enum UploadMode {
    Preparing,
    Ready,
    Uploading,
    Finished,
    Failed,
}

/// `name`, or its beginning and three dots where it is longer than `max_chars`.
pub open spec fn truncated(name: Seq<char>, max_chars: int) -> Seq<char> {
    if name.len() > max_chars {
        name.take(
            if max_chars >= 3 {
                max_chars - 3
            } else {
                0
            },
        ) + seq!['.', '.', '.']
    } else {
        name
    }
}

pub fn truncate_name(name: &str, max_chars: usize) -> (short: String)
    ensures
        short@ == truncated(name@, max_chars as int),
{
    let chars = chars_of(name);
    if chars.len() > max_chars {
        let keep: usize = max_chars.saturating_sub(3);
        let mut short = string_of(chars.as_slice(), 0, keep);
        assert(short@ =~= name@.take(keep as int));
        short.push('.');
        short.push('.');
        short.push('.');
        assert(short@ =~= truncated(name@, max_chars as int));
        short
    } else {
        name.to_owned()
    }
}

pub open spec fn flat(c: char) -> char {
    if control(c) {
        ' '
    } else {
        c
    }
}

/// `name` on one line: a control scalar, such as a line feed, becomes a space.
pub open spec fn flattened(name: Seq<char>) -> Seq<char> {
    name.map_values(|c: char| flat(c))
}

/// `name` on one line, cut to the budget with an ellipsis counted in.
pub open spec fn pill_name(name: Seq<char>) -> Seq<char> {
    let line = flattened(name);
    if line.len() > PILL_NAME_CHARS {
        line.take(PILL_NAME_CHARS - 1).push('…')
    } else {
        line
    }
}

pub fn single_file_display_name(name: &str) -> (shown: String)
    ensures
        shown@ == pill_name(name@),
        shown@.len() <= PILL_NAME_CHARS,
{
    let chars = chars_of(name);
    let keep: usize = if chars.len() > PILL_NAME_CHARS {
        PILL_NAME_CHARS - 1
    } else {
        chars.len()
    };
    let mut shown = String::new();
    let mut i: usize = 0;
    while i < keep
        invariant
            chars@ == name@,
            i <= keep <= chars@.len(),
            shown@ == flattened(name@).take(i as int),
        decreases keep - i,
    {
        let c: char = if is_control(chars[i]) {
            ' '
        } else {
            chars[i]
        };
        shown.push(c);
        assert(shown@ =~= flattened(name@).take(i + 1));
        i = i + 1;
    }
    if chars.len() > PILL_NAME_CHARS {
        shown.push('…');
    } else {
        assert(shown@ =~= flattened(name@));
    }
    shown
}

/// How many files are named, and the note on the rest.
pub fn file_pills(file_count: usize) -> (pills: (usize, Option<String>))
    ensures
        pills.0 == (if file_count <= MAX_FILE_PILLS {
            file_count
        } else {
            MAX_FILE_PILLS
        }),
        opt_text(pills.1) == (if file_count > MAX_FILE_PILLS {
            Some("+"@ + decimal((file_count - MAX_FILE_PILLS) as nat) + " more"@)
        } else {
            None
        }),
        file_count <= 6 ==> pills.0 == file_count && pills.1 is None,
        file_count > 6 ==> pills.0 == 6 && opt_text(pills.1) == Some(
            "+"@ + decimal((file_count - 6) as nat) + " more"@,
        ),
{
    if file_count > MAX_FILE_PILLS {
        let rest: u64 = (file_count - MAX_FILE_PILLS) as u64;
        (MAX_FILE_PILLS, Some(concat3("+", decimal_of(rest).as_str(), " more")))
    } else {
        (file_count, None)
    }
}

/// The count below the progress bar.
pub fn files_label(completed: usize, total: usize) -> (label: String)
    ensures
        label@ == decimal(completed as nat) + " / "@ + decimal(total as nat) + " files"@,
{
    let mut label = concat3(
        decimal_of(completed as u64).as_str(),
        " / ",
        decimal_of(total as u64).as_str(),
    );
    label.append(" files");
    label
}

/// The headline of a finished upload.
pub fn finished_title(cancelled: bool) -> (title: &'static str)
    ensures
        title@ == (if cancelled {
            "Upload cancelled"@
        } else {
            "Upload complete"@
        }),
{
    if cancelled {
        "Upload cancelled"
    } else {
        "Upload complete"
    }
}

/// The remote directories below the destination line.
pub struct DirectoryBrowser {
    pub open: bool,
    pub loading: bool,
    pub error: Option<String>,
    pub current_dir: String,
    pub entries: Vec<String>,
}

pub struct UploadPanel {
    pub file_count: usize,
    pub mode: UploadMode,
    pub transport_choice: UploadTransportChoice,
    pub ssh_upload_error: Option<String>,
    pub taildrop_target: Option<String>,
    pub destination_input: String,
    pub browser: DirectoryBrowser,
}

/// The buttons of the panel that were clicked.
#[derive(Clone, Copy, Debug, PartialEq, Eq, Structural)]
pub struct PanelClicks {
    /// The quiet button on the left.
    pub quiet: bool,
    /// The main button on the right.
    pub main: bool,
}

impl UploadPanel {
    /// An SSH upload needs a way in and a destination.
    pub open spec fn startable(self) -> bool {
        match self.transport_choice {
            UploadTransportChoice::Ssh => self.ssh_upload_error is None && trim(
                self.destination_input@,
            ).len() > 0,
            UploadTransportChoice::Taildrop => true,
        }
    }

    pub fn start_enabled(&self) -> (yes: bool)
        ensures
            yes == self.startable(),
    {
        match self.transport_choice {
            UploadTransportChoice::Ssh => self.ssh_upload_error.is_none() && !trimmed(
                self.destination_input.as_str(),
            ).as_str().is_empty(),
            UploadTransportChoice::Taildrop => true,
        }
    }

    /// What the clicked buttons ask for, in the order in which they stand. A
    /// disabled or missing button asks for nothing.
    pub open spec fn asked(self, clicks: PanelClicks) -> Seq<UploadUiAction> {
        let left = if !clicks.quiet {
            Seq::empty()
        } else {
            match self.mode {
                UploadMode::Ready | UploadMode::Failed => seq![UploadUiAction::Close],
                UploadMode::Uploading => seq![UploadUiAction::CancelUpload],
                UploadMode::Preparing | UploadMode::Finished => Seq::empty(),
            }
        };
        let right = if !clicks.main {
            Seq::empty()
        } else {
            match self.mode {
                UploadMode::Ready => if self.startable() {
                    seq![UploadUiAction::StartUpload]
                } else {
                    Seq::empty()
                },
                UploadMode::Finished => seq![UploadUiAction::Close],
                UploadMode::Failed => if self.file_count > 0 {
                    seq![UploadUiAction::BackToReady]
                } else {
                    Seq::empty()
                },
                UploadMode::Preparing | UploadMode::Uploading => Seq::empty(),
            }
        };
        left + right
    }

    pub fn actions(&self, clicks: PanelClicks) -> (actions: Vec<UploadUiAction>)
        ensures
            actions@ == self.asked(clicks),
    {
        let mut actions: Vec<UploadUiAction> = Vec::new();
        if clicks.quiet {
            match self.mode {
                UploadMode::Ready | UploadMode::Failed => actions.push(UploadUiAction::Close),
                UploadMode::Uploading => actions.push(UploadUiAction::CancelUpload),
                UploadMode::Preparing | UploadMode::Finished => {},
            }
        }
        if clicks.main {
            match self.mode {
                UploadMode::Ready => {
                    if self.start_enabled() {
                        actions.push(UploadUiAction::StartUpload);
                    }
                },
                UploadMode::Finished => actions.push(UploadUiAction::Close),
                UploadMode::Failed => {
                    if self.file_count > 0 {
                        actions.push(UploadUiAction::BackToReady);
                    }
                },
                UploadMode::Preparing | UploadMode::Uploading => {},
            }
        }
        assert(actions@ =~= self.asked(clicks));
        actions
    }

    /// Clicks on the two halves of the transport switch. SSH cannot be chosen
    /// while it fails, Taildrop not without a target.
    pub fn choose_transport(&mut self, ssh_clicked: bool, taildrop_clicked: bool)
        ensures
            final(self).transport_choice == (if taildrop_clicked && old(
                self,
            ).taildrop_target is Some {
                UploadTransportChoice::Taildrop
            } else if ssh_clicked && old(self).ssh_upload_error is None {
                UploadTransportChoice::Ssh
            } else {
                old(self).transport_choice
            }),
            final(self).file_count == old(self).file_count,
            final(self).mode == old(self).mode,
            final(self).ssh_upload_error == old(self).ssh_upload_error,
            final(self).taildrop_target == old(self).taildrop_target,
            final(self).destination_input == old(self).destination_input,
            final(self).browser == old(self).browser,
    {
        if ssh_clicked && self.ssh_upload_error.is_none() {
            self.transport_choice = UploadTransportChoice::Ssh;
        }
        if taildrop_clicked && self.taildrop_target.is_some() {
            self.transport_choice = UploadTransportChoice::Taildrop;
        }
    }

    pub fn browse_label(&self) -> (label: &'static str)
        ensures
            label@ == (if self.browser.open {
                "Close"@
            } else {
                "Browse"@
            }),
    {
        if self.browser.open {
            "Close"
        } else {
            "Browse"
        }
    }

    /// Opens or closes the browser; the result is the path to list.
    pub fn press_browse(&mut self) -> (list: Option<String>)
        ensures
            *final(self) == (UploadPanel {
                browser: DirectoryBrowser { open: !old(self).browser.open, ..old(self).browser },
                ..*old(self)
            }),
            opt_text(list) == (if old(self).browser.open {
                None
            } else {
                Some(old(self).destination_input@)
            }),
    {
        self.browser.open = !self.browser.open;
        if self.browser.open {
            Some(self.destination_input.clone())
        } else {
            None
        }
    }

    /// The list stands there: it is neither loading nor failed.
    pub open spec fn list_shown(self) -> bool {
        self.browser.open && !self.browser.loading && self.browser.error is None
    }

    fn shows_list(&self) -> (yes: bool)
        ensures
            yes == self.list_shown(),
    {
        self.browser.open && !self.browser.loading && self.browser.error.is_none()
    }

    /// Takes the browsed directory as the destination.
    pub fn use_folder(&mut self)
        ensures
            final(self).destination_input@ == (if old(self).list_shown() && old(
                self,
            ).browser.current_dir@.len() > 0 {
                old(self).browser.current_dir@
            } else {
                old(self).destination_input@
            }),
            *final(self) == (UploadPanel {
                destination_input: final(self).destination_input,
                ..*old(self)
            }),
    {
        if self.shows_list() && !self.browser.current_dir.as_str().is_empty() {
            self.destination_input = self.browser.current_dir.clone();
        }
    }

    /// The path to list after a click on a row.
    pub fn navigate(&self, clicked: Option<usize>) -> (list: Option<String>)
        ensures
            opt_text(list) == (match clicked {
                Some(row) => if self.list_shown() && row < self.browser.entries@.len() {
                    Some(
                        browser_path(
                            self.browser.current_dir@,
                            self.browser.entries@[row as int]@,
                        ),
                    )
                } else {
                    None
                },
                None => None,
            }),
    {
        match clicked {
            Some(row) => if self.shows_list() && row < self.browser.entries.len() {
                Some(
                    join_remote_browser_path(
                        self.browser.current_dir.as_str(),
                        self.browser.entries[row].as_str(),
                    ),
                )
            } else {
                None
            },
            None => None,
        }
    }
}

/// A name that is too long keeps its beginning and ends in three dots, within
/// the budget; a shorter one is shown whole.
pub proof fn law_long_names_end_in_dots(name: Seq<char>, max_chars: int)
    requires
        max_chars >= 3,
    ensures
        name.len() <= max_chars ==> truncated(name, max_chars) == name,
        name.len() > max_chars ==> truncated(name, max_chars).len() == max_chars && truncated(
            name,
            max_chars,
        ) == name.take(max_chars - 3) + seq!['.', '.', '.'],
{
}

/// A pill shows the name on one line, every control character as a space: whole
/// up to twenty characters, else nineteen and an ellipsis.
pub proof fn law_pills_show_names_on_one_line(name: Seq<char>)
    ensures
        name.len() <= 20 ==> pill_name(name).len() == name.len(),
        name.len() > 20 ==> pill_name(name).len() == 20 && pill_name(name).last() == '…',
        forall|i: int|
            0 <= i < pill_name(name).len() && (i < 19 || name.len() <= 20) ==> #[trigger] pill_name(
                name,
            )[i] == (if control(name[i]) {
                ' '
            } else {
                name[i]
            }),
{
}

/// An upload over SSH can start only with a way in and a destination that is not
/// blank; one over Taildrop always can.
pub proof fn law_what_an_upload_needs(panel: UploadPanel)
    ensures
        panel.transport_choice is Taildrop ==> panel.startable(),
        panel.transport_choice is Ssh ==> (panel.startable() <==> panel.ssh_upload_error is None
            && trim(panel.destination_input@).len() > 0),
{
}

/// Each button asks for what it says in the panel's mode: an upload is started
/// only where it can be and from the ready panel alone, cancelled only while it
/// runs, and a panel that prepares has no buttons.
pub proof fn law_buttons_ask_for_what_they_say(panel: UploadPanel)
    ensures
        ({
            let none = panel.asked(PanelClicks { quiet: false, main: false });
            let quiet = panel.asked(PanelClicks { quiet: true, main: false });
            let main = panel.asked(PanelClicks { quiet: false, main: true });
            let both = panel.asked(PanelClicks { quiet: true, main: true });
            &&& none.len() == 0
            &&& both == quiet + main
            &&& panel.mode is Preparing ==> quiet.len() == 0 && main.len() == 0
            &&& panel.mode is Ready ==> quiet == seq![UploadUiAction::Close]
            &&& panel.mode is Ready && panel.startable() ==> main
                == seq![UploadUiAction::StartUpload]
            &&& panel.mode is Ready && !panel.startable() ==> main.len() == 0
            &&& panel.mode is Uploading ==> quiet == seq![UploadUiAction::CancelUpload]
                && main.len() == 0
            &&& panel.mode is Finished ==> quiet.len() == 0 && main == seq![UploadUiAction::Close]
            &&& panel.mode is Failed ==> quiet == seq![UploadUiAction::Close]
            &&& panel.mode is Failed && panel.file_count > 0 ==> main
                == seq![UploadUiAction::BackToReady]
            &&& panel.mode is Failed && panel.file_count == 0 ==> main.len() == 0
        }),
{
    let none = panel.asked(PanelClicks { quiet: false, main: false });
    let quiet = panel.asked(PanelClicks { quiet: true, main: false });
    let main = panel.asked(PanelClicks { quiet: false, main: true });
    let both = panel.asked(PanelClicks { quiet: true, main: true });
    assert(both =~= quiet + main);
    let e = Seq::<UploadUiAction>::empty();
    assert(seq![UploadUiAction::Close] + e =~= seq![UploadUiAction::Close]);
    assert(seq![UploadUiAction::CancelUpload] + e =~= seq![UploadUiAction::CancelUpload]);
    assert(e + seq![UploadUiAction::StartUpload] =~= seq![UploadUiAction::StartUpload]);
    assert(e + seq![UploadUiAction::Close] =~= seq![UploadUiAction::Close]);
    assert(e + seq![UploadUiAction::BackToReady] =~= seq![UploadUiAction::BackToReady]);
}

/// A list can be used only where it is open, has arrived and did not fail.
pub proof fn law_lists_are_used_once_they_stand_there(panel: UploadPanel)
    ensures
        panel.list_shown() <==> panel.browser.open && !panel.browser.loading
            && panel.browser.error is None,
{
}

} // verus!
