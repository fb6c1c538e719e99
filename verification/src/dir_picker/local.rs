//! Picking a directory of this machine.
use vstd::prelude::*;

use super::modal::{PickerModalAction, PickerModalState};
use crate::text::{chars_of, concat2, has_prefix, same_text, starts_with, string_of};

verus! {

/// A changed query is searched once it is this old.
pub const DEBOUNCE_MS: u64 = 60;

/// What the picked directory is for. `ticket` finds the preset and the canvas
/// position again that the request was made with.
#[derive(Clone, Copy, Debug, PartialEq, Eq, Structural)]
pub enum DirPickerPurpose {
    NewWorkspace { ticket: u64 },
    AddPanel { workspace_id: u64, ticket: u64 },
}

pub struct DirPicker {
    pub modal: PickerModalState,
    pub results: Vec<String>,
    pub selected_purpose: Option<DirPickerPurpose>,
    /// A search is under way and its results have not arrived.
    pub searching: bool,
    pub last_query_sent: String,
    pub last_query_ms: u64,
    pub initial_results_loaded: bool,
}

pub enum DirPickerAction {
    Idle,
    Selected(Option<String>, DirPickerPurpose),
    Cancelled,
}

/// What the running search has to say.
pub enum SearchPoll {
    Empty,
    Results(Vec<String>),
    Disconnected,
}

/// The query that browses the directory shown as `path`.
pub open spec fn seeded(path: Option<Seq<char>>) -> Seq<char> {
    match path {
        None => Seq::empty(),
        Some(p) => if p.len() > 0 && p.last() == '/' {
            p
        } else {
            p.push('/')
        },
    }
}

/// `base` with the relative or absolute path `rest` put behind it.
pub open spec fn joined_path(base: Seq<char>, rest: Seq<char>) -> Seq<char> {
    if rest.len() > 0 && rest[0] == '/' {
        rest
    } else if base.len() == 0 || base.last() == '/' {
        base + rest
    } else {
        base.push('/') + rest
    }
}

/// `input` with a leading tilde replaced by the home directory.
pub open spec fn expanded_tilde(input: Seq<char>, home: Seq<char>) -> Seq<char> {
    if input.len() == 0 || input[0] != '~' {
        input
    } else if input.len() == 1 {
        home
    } else if input[1] == '/' {
        joined_path(home, input.skip(2))
    } else {
        joined_path(home, input.skip(1))
    }
}

/// `input` as a path, a leading tilde standing for `home` (`/` where the home
/// directory is unknown).
pub fn expand_tilde_simple(input: &str, home: Option<&str>) -> (path: String)
    ensures
        path@ == expanded_tilde(
            input@,
            match home {
                Some(h) => h@,
                None => seq!['/'],
            },
        ),
{
    let chars = chars_of(input);
    if chars.len() == 0 || chars[0] != '~' {
        return input.to_owned();
    }
    let base: String = match home {
        Some(h) => h.to_owned(),
        None => {
            let mut root = String::new();
            root.push('/');
            assert(root@ =~= seq!['/']);
            root
        },
    };
    if chars.len() == 1 {
        return base;
    }
    let from: usize = if chars[1] == '/' { 2 } else { 1 };
    let rest = string_of(chars.as_slice(), from, chars.len());
    assert(rest@ =~= input@.skip(from as int));
    join_path(base.as_str(), rest.as_str())
}

/// `path` with a leading home directory replaced by a tilde.
pub open spec fn abbreviated(path: Seq<char>, home: Seq<char>) -> Seq<char> {
    if home.len() > 0 && starts_with(path, home) && (path.len() == home.len() || path[home.len() as int]
        == '/') {
        seq!['~'] + path.skip(home.len() as int)
    } else {
        path
    }
}

/// A path as it is shown: short where it lies in the home directory, if that is
/// known.
pub fn abbreviate_home(path: &str, home: Option<&str>) -> (shown: String)
    ensures
        shown@ == match home {
            Some(h) => abbreviated(path@, h@),
            None => path@,
        },
{
    if let Some(home) = home {
        let base = chars_of(home);
        let chars = chars_of(path);
        let len: usize = base.len();
        if len > 0 && has_prefix(path, home) && (chars.len() == len || chars[len] == '/') {
            let mut shown = String::new();
            shown.push('~');
            let rest = string_of(chars.as_slice(), len, chars.len());
            shown.append(rest.as_str());
            assert(rest@ =~= path@.skip(len as int));
            assert(shown@ =~= seq!['~'] + path@.skip(len as int));
            return shown;
        }
    }
    path.to_owned()
}

/// A path of this machine that is shown short is found again by what is shown.
pub proof fn law_shown_paths_lead_back(path: Seq<char>, home: Seq<char>)
    requires
        path.len() > 0,
        path[0] == '/',
        home.len() > 0,
        home.last() != '/',
        starts_with(path, home) && path.len() > home.len() + 1 ==> path[home.len() as int + 1]
            != '/',
    ensures
        expanded_tilde(abbreviated(path, home), home) == path,
{
    let short = abbreviated(path, home);
    if short != path {
        let len = home.len() as int;
        assert(path.take(len) =~= home);
        if path.len() == len {
            assert(path =~= home);
        } else {
            let rest = short.skip(2);
            assert(rest =~= path.skip(len + 1));
            assert(home.push('/') + rest =~= path);
        }
    }
}

fn join_path(base: &str, rest: &str) -> (path: String)
    ensures
        path@ == joined_path(base@, rest@),
{
    let tail = chars_of(rest);
    if tail.len() > 0 && tail[0] == '/' {
        return rest.to_owned();
    }
    let head = chars_of(base);
    if head.len() == 0 || head[head.len() - 1] == '/' {
        return concat2(base, rest);
    }
    let mut path = base.to_owned();
    path.push('/');
    path.append(rest);
    path
}

/// The first query of a picker that opens on `path`, shown with the home
/// directory abbreviated.
pub fn seed_query(path: Option<&str>) -> (query: String)
    ensures
        query@ == seeded(
            match path {
                Some(p) => Some(p@),
                None => None,
            },
        ),
{
    match path {
        None => String::new(),
        Some(p) => {
            let chars = chars_of(p);
            let mut query = p.to_owned();
            if chars.len() == 0 || chars[chars.len() - 1] != '/' {
                query.push('/');
            }
            query
        },
    }
}

impl DirPicker {
    /// A picker whose first search, for its query, has been started.
    pub fn with_seed(purpose: DirPickerPurpose, path: Option<&str>, now_ms: u64) -> (picker: Self)
        ensures
            picker.modal.query@ == seeded(
                match path {
                    Some(p) => Some(p@),
                    None => None,
                },
            ),
            picker.modal.selected == 0,
            picker.modal.opened_at_ms == now_ms,
            picker.results@.len() == 0,
            picker.selected_purpose == Some(purpose),
            picker.searching,
            picker.last_query_sent@ == picker.modal.query@,
            picker.last_query_ms == now_ms,
            !picker.initial_results_loaded,
    {
        let query = seed_query(path);
        let sent = query.clone();
        DirPicker {
            modal: PickerModalState::new(query, now_ms),
            results: Vec::new(),
            selected_purpose: Some(purpose),
            searching: true,
            last_query_sent: sent,
            last_query_ms: now_ms,
            initial_results_loaded: false,
        }
    }

    pub fn new(purpose: DirPickerPurpose, now_ms: u64) -> (picker: Self)
        ensures
            picker.modal.query@.len() == 0,
            picker.modal.selected == 0,
            picker.modal.opened_at_ms == now_ms,
            picker.results@.len() == 0,
            picker.selected_purpose == Some(purpose),
            picker.searching,
            picker.last_query_sent@ == picker.modal.query@,
            picker.last_query_ms == now_ms,
            !picker.initial_results_loaded,
    {
        Self::with_seed(purpose, None, now_ms)
    }

    pub fn heading(&self) -> (heading: &'static str)
        ensures
            heading@ == (match self.selected_purpose {
                Some(DirPickerPurpose::NewWorkspace { .. }) => "Select workspace directory"@,
                _ => "Select terminal directory"@,
            }),
    {
        match &self.selected_purpose {
            Some(DirPickerPurpose::NewWorkspace { .. }) => "Select workspace directory",
            Some(DirPickerPurpose::AddPanel { .. }) | None => "Select terminal directory",
        }
    }

    /// What stands in the list while it is empty.
    pub fn empty_message(&self) -> (message: &'static str)
        ensures
            message@ == (if self.initial_results_loaded {
                "No directories found"@
            } else {
                "Searching..."@
            }),
    {
        if self.initial_results_loaded {
            "No directories found"
        } else {
            "Searching..."
        }
    }

    /// The query differs from the one last searched and has been left alone
    /// long enough.
    pub open spec fn search_due(self, now_ms: u64) -> bool {
        self.modal.query@ != self.last_query_sent@ && now_ms - self.last_query_ms >= DEBOUNCE_MS
    }

    /// Takes what the running search says; the result is the query to start a
    /// new search for.
    pub fn update_search(&mut self, poll: SearchPoll, now_ms: u64) -> (start: Option<String>)
        ensures
            (start is Some) == old(self).search_due(now_ms),
            start is Some ==> start->0@ == old(self).modal.query@,
            final(self).searching == (start is Some || (old(self).searching && poll is Empty)),
            old(self).searching && poll is Results ==> {
                &&& final(self).results@ == poll->Results_0@
                &&& final(self).initial_results_loaded
                &&& final(self).modal.selected == (if old(self).modal.selected
                    >= poll->Results_0@.len() {
                    0
                } else {
                    old(self).modal.selected as int
                })
            },
            !(old(self).searching && poll is Results) ==> {
                &&& final(self).results@ == old(self).results@
                &&& final(self).initial_results_loaded == old(self).initial_results_loaded
                &&& final(self).modal.selected == old(self).modal.selected
            },
            final(self).last_query_sent@ == (if start is Some {
                old(self).modal.query@
            } else {
                old(self).last_query_sent@
            }),
            final(self).last_query_ms == (if start is Some {
                now_ms
            } else {
                old(self).last_query_ms
            }),
            final(self).modal.query@ == old(self).modal.query@,
            final(self).modal.opened_at_ms == old(self).modal.opened_at_ms,
            final(self).selected_purpose == old(self).selected_purpose,
    {
        if self.searching {
            match poll {
                SearchPoll::Results(results) => {
                    self.results = results;
                    self.modal.clamp_selected(self.results.len());
                    self.searching = false;
                    self.initial_results_loaded = true;
                },
                SearchPoll::Empty => {},
                SearchPoll::Disconnected => {
                    self.searching = false;
                },
            }
        }
        if !same_text(self.modal.query(), self.last_query_sent.as_str()) && now_ms
            >= self.last_query_ms && now_ms - self.last_query_ms >= DEBOUNCE_MS {
            self.last_query_sent = self.modal.query().to_owned();
            self.last_query_ms = now_ms;
            self.searching = true;
            return Some(self.modal.query().to_owned());
        }
        None
    }

    /// The row that is selected, if there is one.
    pub open spec fn selected_row(self) -> Option<Seq<char>> {
        if self.modal.selected < self.results@.len() {
            Some(self.results@[self.modal.selected as int]@)
        } else {
            None
        }
    }

    /// Puts the selected row, as it is shown, into the query line so that its
    /// children are searched. `shown` is that row with the home directory
    /// abbreviated.
    pub fn complete_selection(&mut self, shown: &str, now_ms: u64)
        ensures
            old(self).selected_row() is Some ==> {
                &&& final(self).modal.query@ == shown@.push('/')
                &&& final(self).last_query_ms == now_ms
            },
            old(self).selected_row() is None ==> {
                &&& final(self).modal.query@ == old(self).modal.query@
                &&& final(self).last_query_ms == old(self).last_query_ms
            },
            final(self).modal.selected == old(self).modal.selected,
            final(self).modal.opened_at_ms == old(self).modal.opened_at_ms,
            *final(self) == (DirPicker {
                modal: final(self).modal,
                last_query_ms: final(self).last_query_ms,
                ..*old(self)
            }),
    {
        if self.modal.selected_index() >= self.results.len() {
            return ;
        }
        let mut query = shown.to_owned();
        query.push('/');
        self.modal.set_query(query);
        self.last_query_ms = now_ms;
    }

    /// What Enter picks. A typed directory that exists wins over the selected
    /// row; an empty query with nothing to select skips the choice.
    pub open spec fn confirmed(self, typed: Seq<char>, typed_is_dir: bool) -> Option<
        Option<Seq<char>>,
    > {
        if self.modal.query@.len() > 0 && typed_is_dir {
            Some(Some(typed))
        } else if self.selected_row() is Some {
            Some(self.selected_row())
        } else if self.modal.query@.len() == 0 {
            Some(None)
        } else {
            None
        }
    }

    /// `typed` is the query with its tilde expanded; `typed_is_dir` whether it
    /// names a directory.
    pub fn confirm_selection(&mut self, typed: &str, typed_is_dir: bool) -> (action:
        DirPickerAction)
        ensures
            match old(self).confirmed(typed@, typed_is_dir) {
                None => action is Idle && *final(self) == *old(self),
                Some(path) => old(self).answers(path, action) && *final(self) == old(self).used_up(),
            },
    {
        let empty_query = self.modal.query().is_empty();
        if !empty_query && typed_is_dir {
            return self.select(Some(typed.to_owned()));
        }
        if self.modal.selected_index() < self.results.len() {
            let path = self.results[self.modal.selected_index()].clone();
            return self.select(Some(path));
        }
        if empty_query {
            return self.select(None);
        }
        DirPickerAction::Idle
    }

    /// `action` hands `path` to the purpose that the picker still has, or
    /// cancels where the purpose was used up before.
    pub open spec fn answers(self, path: Option<Seq<char>>, action: DirPickerAction) -> bool {
        match self.selected_purpose {
            Some(purpose) => action matches DirPickerAction::Selected(p, q) && q == purpose
                && crate::text::opt_text(p) == path,
            None => action is Cancelled,
        }
    }

    /// The picker once its purpose has been answered.
    pub open spec fn used_up(self) -> DirPicker {
        DirPicker { selected_purpose: None, ..self }
    }

    /// Uses the purpose up.
    pub fn select(&mut self, path: Option<String>) -> (action: DirPickerAction)
        ensures
            old(self).answers(crate::text::opt_text(path), action),
            *final(self) == old(self).used_up(),
    {
        match self.selected_purpose.take() {
            Some(purpose) => DirPickerAction::Selected(path, purpose),
            None => DirPickerAction::Cancelled,
        }
    }

    /// What an action of the modal does to the picker. `typed`,
    /// `typed_is_dir` and `shown` are as in `confirm_selection` and
    /// `complete_selection`.
    pub fn act(
        &mut self,
        action: PickerModalAction,
        typed: &str,
        typed_is_dir: bool,
        shown: &str,
        now_ms: u64,
    ) -> (answer: DirPickerAction)
        requires
            action matches PickerModalAction::ClickedRow(row) ==> row < old(self).results@.len(),
        ensures
            match action {
                PickerModalAction::Idle => answer is Idle && *final(self) == *old(self),
                PickerModalAction::Cancelled => answer is Cancelled && *final(self) == *old(self),
                PickerModalAction::Submit => match old(self).confirmed(typed@, typed_is_dir) {
                    None => answer is Idle && *final(self) == *old(self),
                    Some(path) => old(self).answers(path, answer) && *final(self) == old(
                        self,
                    ).used_up(),
                },
                PickerModalAction::CompleteSelection => {
                    &&& answer is Idle
                    &&& final(self).modal.query@ == (if old(self).selected_row() is Some {
                        shown@.push('/')
                    } else {
                        old(self).modal.query@
                    })
                    &&& final(self).modal.selected == old(self).modal.selected
                    &&& final(self).modal.opened_at_ms == old(self).modal.opened_at_ms
                    &&& *final(self) == (DirPicker {
                        modal: final(self).modal,
                        last_query_ms: if old(self).selected_row() is Some {
                            now_ms
                        } else {
                            old(self).last_query_ms
                        },
                        ..*old(self)
                    })
                },
                PickerModalAction::ClickedRow(row) => old(self).answers(
                    Some(old(self).results@[row as int]@),
                    answer,
                ) && *final(self) == old(self).used_up(),
                PickerModalAction::FooterAction => old(self).answers(None, answer)
                    && *final(self) == old(self).used_up(),
            },
    {
        match action {
            PickerModalAction::Idle => DirPickerAction::Idle,
            PickerModalAction::Cancelled => DirPickerAction::Cancelled,
            PickerModalAction::Submit => self.confirm_selection(typed, typed_is_dir),
            PickerModalAction::CompleteSelection => {
                self.complete_selection(shown, now_ms);
                DirPickerAction::Idle
            },
            PickerModalAction::ClickedRow(row) => {
                let path = self.results[row].clone();
                self.select(Some(path))
            },
            PickerModalAction::FooterAction => self.select(None),
        }
    }
}

/// A picker that opens on a directory browses it: its query ends in one slash.
pub proof fn law_seeds_end_in_one_slash(path: Seq<char>)
    ensures
        seeded(None).len() == 0,
        seeded(Some(path)).last() == '/',
        path.len() > 0 && path.last() == '/' ==> seeded(Some(path)) == path,
        path.len() == 0 || path.last() != '/' ==> seeded(Some(path)).len() == path.len() + 1
            && seeded(Some(path)).drop_last() =~= path,
{
}

/// An absolute path replaces what it is put behind; any other stands behind one
/// slash.
pub proof fn law_paths_are_joined_by_one_slash(base: Seq<char>, rest: Seq<char>)
    ensures
        ({
            let path = joined_path(base, rest);
            let absolute = rest.len() > 0 && rest[0] == '/';
            &&& absolute ==> path == rest
            &&& !absolute && (base.len() == 0 || base.last() == '/') ==> path =~= base + rest
            &&& !absolute && base.len() > 0 && base.last() != '/' ==> path.len() == base.len() + 1
                + rest.len() && path[base.len() as int] == '/' && path.take(base.len() as int)
                =~= base && path.skip((base.len() + 1) as int) =~= rest
        }),
{
}

/// A tilde at the beginning stands for the home directory; what has none stays.
pub proof fn law_tildes_stand_for_home(input: Seq<char>, home: Seq<char>, rest: Seq<char>)
    requires
        home.len() > 0,
        home.last() != '/',
        rest.len() > 0 ==> rest[0] != '/',
    ensures
        input.len() == 0 || input[0] != '~' ==> expanded_tilde(input, home) == input,
        expanded_tilde(seq!['~'], home) == home,
        expanded_tilde(seq!['~', '/'] + rest, home) =~= home + seq!['/'] + rest,
{
    let slashed = seq!['~', '/'] + rest;
    assert(slashed.skip(2) =~= rest);
    assert(slashed[1] == '/');
    assert(home.push('/') =~= home + seq!['/']);
}

/// A path in the home directory, and that directory itself, is shown with a
/// tilde; one that only begins alike is shown whole.
pub proof fn law_home_is_shown_as_a_tilde(path: Seq<char>, home: Seq<char>, rest: Seq<char>)
    requires
        home.len() > 0,
    ensures
        abbreviated(home, home) =~= seq!['~'],
        abbreviated(home + seq!['/'] + rest, home) =~= seq!['~', '/'] + rest,
        !starts_with(path, home) ==> abbreviated(path, home) == path,
        path.len() > home.len() && path[home.len() as int] != '/' ==> abbreviated(path, home)
            == path,
{
    let inside = home + seq!['/'] + rest;
    assert(inside.take(home.len() as int) =~= home);
    assert(home.take(home.len() as int) =~= home);
    assert(inside.skip(home.len() as int) =~= seq!['/'] + rest);
    assert(inside[home.len() as int] == '/');
}

/// A changed query is searched once it has been left alone for 60 milliseconds.
pub proof fn law_changed_queries_are_searched(picker: DirPicker, now_ms: u64)
    ensures
        picker.modal.query@ == picker.last_query_sent@ ==> !picker.search_due(now_ms),
        picker.modal.query@ != picker.last_query_sent@ ==> (picker.search_due(now_ms) <==> now_ms
            >= picker.last_query_ms + 60),
{
}

/// Enter picks a directory that was typed, else the selected row, else nothing
/// where nothing was typed; a text that names no directory is not picked.
pub proof fn law_enter_picks_what_was_typed_first(
    picker: DirPicker,
    typed: Seq<char>,
    typed_is_dir: bool,
)
    ensures
        ({
            let picked = picker.confirmed(typed, typed_is_dir);
            let wrote = picker.modal.query@.len() > 0;
            let row = picker.modal.selected < picker.results@.len();
            &&& wrote && typed_is_dir ==> picked == Some(Some(typed))
            &&& !(wrote && typed_is_dir) && row ==> picked == Some(
                Some(picker.results@[picker.modal.selected as int]@),
            )
            &&& !wrote && !row ==> picked == Some(None::<Seq<char>>)
            &&& wrote && !typed_is_dir && !row ==> picked is None
        }),
{
}

/// A picker answers its purpose once; after that it only cancels.
pub proof fn law_purposes_are_answered_once(
    picker: DirPicker,
    path: Option<Seq<char>>,
    action: DirPickerAction,
)
    requires
        picker.answers(path, action),
    ensures
        picker.selected_purpose matches Some(purpose) ==> (action matches
            DirPickerAction::Selected(p, q) && q == purpose && crate::text::opt_text(p) == path),
        picker.selected_purpose is None ==> action is Cancelled,
        picker.used_up().selected_purpose is None,
        picker.used_up().results == picker.results,
        picker.used_up().modal == picker.modal,
{
}

} // verus!
