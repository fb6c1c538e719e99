//! Browsing the remote host for the directory to upload to.
use vstd::prelude::*;

use super::listing::{browser_path, join_remote_browser_path, RemoteDirectoryListing};
use crate::dir_picker::{PickerModalAction, PickerModalState};
use crate::text::{
    ascii_lowercase, chars_of, concat2, find_last, has_prefix, last_index, lowercased, opt_text,
    same_text, starts_with, string_of, texts, trim, trimmed,
};

verus! {

/// A changed query is listed once it is this old.
pub const REMOTE_DEBOUNCE_MS: u64 = 120;

pub struct RemoteDestinationEntry {
    pub name: String,
    pub resolved_path: String,
}

pub enum RemoteDestinationPickerAction {
    Idle,
    Cancelled,
    Selected(String),
}

/// A listing that is under way.
pub struct PendingRemoteListing {
    pub requested_list_path: String,
}

/// The directory to list for a query, and what its entries must start with.
pub struct RemoteQueryRequest {
    pub list_path: String,
    pub prefix: String,
}

/// What the listing under way has to say.
pub enum ListingPoll {
    Empty,
    Listed(Result<RemoteDirectoryListing, String>),
    Disconnected,
}

/// The directory that a trimmed query browses: everything before its last
/// slash, the root where that is empty, and the home directory (an empty path)
/// where there is no slash.
pub open spec fn list_path_of(trimmed: Seq<char>) -> Seq<char> {
    let at = last_index(trimmed, '/');
    if at < 0 {
        Seq::empty()
    } else if at == 0 {
        seq!['/']
    } else {
        trimmed.take(at)
    }
}

/// What a trimmed query has behind its last slash.
pub open spec fn prefix_of(trimmed: Seq<char>) -> Seq<char> {
    trimmed.skip(last_index(trimmed, '/') + 1)
}

pub fn remote_query_request(query: &str) -> (request: RemoteQueryRequest)
    ensures
        request.list_path@ == list_path_of(trim(query@)),
        request.prefix@ == prefix_of(trim(query@)),
{
    let text = trimmed(query);
    let chars = chars_of(text.as_str());
    let len: usize = chars.len();
    match find_last(chars.as_slice(), '/') {
        None => {
            assert(text@.skip(0) =~= text@);
            RemoteQueryRequest { list_path: String::new(), prefix: text }
        },
        Some(at) => {
            let list_path = if at == 0 {
                let mut root = String::new();
                root.push('/');
                assert(root@ =~= seq!['/']);
                root
            } else {
                let parent = string_of(chars.as_slice(), 0, at);
                assert(parent@ =~= text@.take(at as int));
                parent
            };
            let prefix = string_of(chars.as_slice(), at + 1, len);
            assert(prefix@ =~= text@.skip(at + 1));
            RemoteQueryRequest { list_path, prefix }
        },
    }
}

/// The query that browses `path`.
pub open spec fn browse_query(path: Seq<char>) -> Seq<char> {
    if path == seq!['/'] {
        path
    } else {
        path.push('/')
    }
}

pub fn browse_query_for(path: &str) -> (query: String)
    ensures
        query@ == browse_query(path@),
{
    let mut query = path.to_owned();
    proof {
        reveal_strlit("/");
        assert("/"@ =~= seq!['/']);
    }
    if !same_text(path, "/") {
        query.push('/');
    }
    query
}

/// `entry` starts with `prefix`, whatever their ASCII case.
pub open spec fn entry_matches(entry: Seq<char>, prefix: Seq<char>) -> bool {
    starts_with(ascii_lowercase(entry), ascii_lowercase(prefix))
}

pub fn remote_entry_matches(entry: &str, prefix: &str) -> (yes: bool)
    ensures
        yes == entry_matches(entry@, prefix@),
{
    has_prefix(lowercased(entry).as_str(), lowercased(prefix).as_str())
}

/// The query names the directory that is shown, with or without a slash behind.
pub open spec fn targets_current(query: Seq<char>, current_dir: Seq<char>) -> bool {
    current_dir.len() > 0 && (query == current_dir || query == browse_query(current_dir))
}

pub fn query_targets_current_dir(query: &str, current_dir: &str) -> (yes: bool)
    ensures
        yes == targets_current(query@, current_dir@),
{
    !current_dir.is_empty() && (same_text(query, current_dir) || same_text(
        query,
        browse_query_for(current_dir).as_str(),
    ))
}

impl PendingRemoteListing {
    /// The listing is still the one that `query` asks for.
    pub open spec fn answers(self, query: Seq<char>) -> bool {
        self.requested_list_path@ == list_path_of(trim(query))
    }

    pub fn matches_query(&self, query: &str) -> (yes: bool)
        ensures
            yes == self.answers(query@),
    {
        same_text(
            self.requested_list_path.as_str(),
            remote_query_request(query).list_path.as_str(),
        )
    }
}

/// An entry by name and path.
pub open spec fn entry_views(entries: Seq<RemoteDestinationEntry>) -> Seq<(Seq<char>, Seq<char>)> {
    entries.map_values(|e: RemoteDestinationEntry| (e.name@, e.resolved_path@))
}

/// The entries of `dir` that match `prefix`, in their order, with their paths.
pub open spec fn offered(names: Seq<Seq<char>>, prefix: Seq<char>, dir: Seq<char>) -> Seq<
    (Seq<char>, Seq<char>),
>
    decreases names.len(),
{
    if names.len() == 0 {
        Seq::empty()
    } else if entry_matches(names.last(), prefix) {
        offered(names.drop_last(), prefix, dir).push((names.last(), browser_path(dir, names.last())))
    } else {
        offered(names.drop_last(), prefix, dir)
    }
}

pub struct RemoteDestinationPicker {
    pub modal: PickerModalState,
    pub results: Vec<RemoteDestinationEntry>,
    pub current_dir: String,
    pub error: Option<String>,
    pub pending_listing: Option<PendingRemoteListing>,
    pub last_query_sent: String,
    pub last_query_ms: u64,
    pub initial_results_loaded: bool,
}

/// What the list shows while it is empty.
#[derive(Clone, Copy, Debug, PartialEq, Eq, Structural)]
pub enum EmptyTone {
    Failed,
    Quiet,
}

impl RemoteDestinationPicker {
    /// A picker whose first listing, of its pending path, has been started.
    pub fn new(initial_query: &str, now_ms: u64) -> (picker: Self)
        ensures
            picker.modal.query@ == trim(initial_query@),
            picker.modal.selected == 0,
            picker.modal.opened_at_ms == now_ms,
            picker.results@.len() == 0,
            picker.current_dir@.len() == 0,
            picker.error is None,
            picker.pending_listing matches Some(pending) && pending.answers(picker.modal.query@),
            picker.last_query_sent@ == picker.modal.query@,
            picker.last_query_ms == now_ms,
            !picker.initial_results_loaded,
    {
        let query = trimmed(initial_query);
        let request = remote_query_request(query.as_str());
        let sent = query.clone();
        RemoteDestinationPicker {
            modal: PickerModalState::new(query, now_ms),
            results: Vec::new(),
            current_dir: String::new(),
            error: None,
            pending_listing: Some(PendingRemoteListing { requested_list_path: request.list_path }),
            last_query_sent: sent,
            last_query_ms: now_ms,
            initial_results_loaded: false,
        }
    }

    pub open spec fn rows(self) -> Seq<(Seq<char>, Seq<char>)> {
        entry_views(self.results@)
    }

    /// Nothing that the list shows differs.
    pub open spec fn same_list(self, other: Self) -> bool {
        &&& self.rows() == other.rows()
        &&& self.current_dir@ == other.current_dir@
        &&& self.modal.selected == other.modal.selected
    }

    /// Nothing differs of what was asked and what came back.
    pub open spec fn same_search(self, other: Self) -> bool {
        &&& self.error == other.error
        &&& self.pending_listing == other.pending_listing
        &&& self.last_query_sent == other.last_query_sent
        &&& self.initial_results_loaded == other.initial_results_loaded
        &&& self.modal.opened_at_ms == other.modal.opened_at_ms
    }

    /// The line above the list.
    pub fn status_line(&self) -> (line: Option<String>)
        ensures
            opt_text(line) == (if self.current_dir@.len() > 0 {
                Some("Browsing: "@ + self.current_dir@)
            } else {
                None
            }),
    {
        if self.current_dir.as_str().is_empty() {
            None
        } else {
            Some(concat2("Browsing: ", self.current_dir.as_str()))
        }
    }

    pub fn empty_state(&self) -> (state: (String, EmptyTone))
        ensures
            match self.error {
                Some(error) => state.0@ == error@ && state.1 == EmptyTone::Failed,
                None => state.1 == EmptyTone::Quiet && state.0@ == (if self.initial_results_loaded {
                    "No remote directories found"@
                } else {
                    "Loading remote directories..."@
                }),
            },
    {
        match &self.error {
            Some(error) => (error.clone(), EmptyTone::Failed),
            None => if self.initial_results_loaded {
                ("No remote directories found".to_owned(), EmptyTone::Quiet)
            } else {
                ("Loading remote directories...".to_owned(), EmptyTone::Quiet)
            },
        }
    }

    /// Shows what `listing` holds for the query.
    pub fn apply_listing(&mut self, listing: RemoteDirectoryListing)
        ensures
            final(self).current_dir@ == listing.current_dir@,
            final(self).rows() == offered(
                texts(listing.entries@),
                prefix_of(trim(old(self).modal.query@)),
                listing.current_dir@,
            ),
            final(self).modal.selected == (if old(self).modal.selected >= final(self).rows().len() {
                0
            } else {
                old(self).modal.selected as int
            }),
            final(self).modal.query@ == old(self).modal.query@,
            final(self).modal.opened_at_ms == old(self).modal.opened_at_ms,
            final(self).error == old(self).error,
            final(self).pending_listing == old(self).pending_listing,
            final(self).last_query_sent == old(self).last_query_sent,
            final(self).last_query_ms == old(self).last_query_ms,
            final(self).initial_results_loaded == old(self).initial_results_loaded,
    {
        let request = remote_query_request(self.modal.query());
        let ghost prefix = request.prefix@;
        let ghost dir = listing.current_dir@;
        let ghost names = texts(listing.entries@);
        let mut rows: Vec<RemoteDestinationEntry> = Vec::new();
        let mut i: usize = 0;
        assert(entry_views(rows@) =~= offered(names.take(0), prefix, dir));
        while i < listing.entries.len()
            invariant
                names == texts(listing.entries@),
                prefix == request.prefix@,
                dir == listing.current_dir@,
                i <= listing.entries@.len(),
                entry_views(rows@) == offered(names.take(i as int), prefix, dir),
            decreases listing.entries@.len() - i,
        {
            assert(names.take(i + 1).drop_last() =~= names.take(i as int));
            assert(names.take(i + 1).last() == listing.entries@[i as int]@);
            let name = listing.entries[i].clone();
            if remote_entry_matches(name.as_str(), request.prefix.as_str()) {
                let resolved_path = join_remote_browser_path(
                    listing.current_dir.as_str(),
                    name.as_str(),
                );
                let ghost before = entry_views(rows@);
                let ghost row = (name@, resolved_path@);
                rows.push(RemoteDestinationEntry { name, resolved_path });
                assert(entry_views(rows@) =~= before.push(row));
            }
            i = i + 1;
        }
        assert(names.take(i as int) =~= names);
        self.current_dir = listing.current_dir;
        self.results = rows;
        self.modal.clamp_selected(self.results.len());
        assert(self.rows().len() == self.results@.len());
    }

    /// The query differs from the one last listed and has been left alone long
    /// enough.
    pub open spec fn listing_due(self, now_ms: u64) -> bool {
        self.modal.query@ != self.last_query_sent@ && now_ms - self.last_query_ms
            >= REMOTE_DEBOUNCE_MS
    }

    /// The poll brings the end of the listing that the query still asks for.
    pub open spec fn takes(self, poll: ListingPoll) -> bool {
        !(poll is Empty) && (self.pending_listing matches Some(pending) && pending.answers(
            self.modal.query@,
        ))
    }

    /// Takes what the listing under way says; the result is the path to start a
    /// new listing of. What arrives for another directory than the query now
    /// asks for is dropped.
    pub fn update_search(&mut self, poll: ListingPoll, now_ms: u64) -> (start: Option<String>)
        ensures
            (start is Some) == old(self).listing_due(now_ms),
            start is Some ==> start->0@ == list_path_of(trim(old(self).modal.query@)),
            final(self).modal.query@ == old(self).modal.query@,
            final(self).modal.opened_at_ms == old(self).modal.opened_at_ms,
            match (old(self).takes(poll), poll) {
                (true, ListingPoll::Listed(Ok(listing))) => {
                    &&& final(self).current_dir@ == listing.current_dir@
                    &&& final(self).rows() == offered(
                        texts(listing.entries@),
                        prefix_of(trim(old(self).modal.query@)),
                        listing.current_dir@,
                    )
                    &&& final(self).modal.selected == (if old(self).modal.selected >= final(self).rows().len() {
                        0
                    } else {
                        old(self).modal.selected as int
                    })
                    &&& final(self).error is None
                    &&& final(self).initial_results_loaded
                },
                (true, _) => {
                    &&& final(self).rows().len() == 0
                    &&& final(self).current_dir@ == old(self).current_dir@
                    &&& final(self).modal.selected == old(self).modal.selected
                    &&& opt_text(final(self).error) == (if start is Some {
                        None
                    } else {
                        Some(
                            match poll {
                                ListingPoll::Listed(Err(error)) => error@,
                                _ => "remote directory picker disconnected"@,
                            },
                        )
                    })
                    &&& final(self).initial_results_loaded
                },
                (false, _) => {
                    &&& final(self).same_list(*old(self))
                    &&& opt_text(final(self).error) == (if start is Some {
                        None
                    } else {
                        opt_text(old(self).error)
                    })
                    &&& final(self).initial_results_loaded == old(self).initial_results_loaded
                },
            },
            start is Some ==> (final(self).pending_listing matches Some(pending)
                && pending.answers(old(self).modal.query@)),
            start is None ==> final(self).pending_listing == (if poll is Empty {
                old(self).pending_listing
            } else {
                None
            }),
            final(self).last_query_sent@ == (if start is Some {
                old(self).modal.query@
            } else {
                old(self).last_query_sent@
            }),
            final(self).last_query_ms == (if start is Some {
                now_ms
            } else {
                old(self).last_query_ms
            }),
    {
        if let Some(pending) = self.pending_listing.take() {
            let wanted = pending.matches_query(self.modal.query());
            match poll {
                ListingPoll::Listed(Ok(listing)) => {
                    if wanted {
                        self.apply_listing(listing);
                        self.error = None;
                        self.initial_results_loaded = true;
                    }
                },
                ListingPoll::Listed(Err(error)) => {
                    if wanted {
                        self.results.clear();
                        self.error = Some(error);
                        self.initial_results_loaded = true;
                    }
                },
                ListingPoll::Empty => {
                    self.pending_listing = Some(pending);
                },
                ListingPoll::Disconnected => {
                    if wanted {
                        self.results.clear();
                        self.error = Some("remote directory picker disconnected".to_owned());
                        self.initial_results_loaded = true;
                    }
                },
            }
        }
        if !same_text(self.modal.query(), self.last_query_sent.as_str()) && now_ms
            >= self.last_query_ms && now_ms - self.last_query_ms >= REMOTE_DEBOUNCE_MS {
            let request = remote_query_request(self.modal.query());
            self.last_query_sent = self.modal.query().to_owned();
            self.last_query_ms = now_ms;
            self.error = None;
            let start = request.list_path.clone();
            self.pending_listing = Some(
                PendingRemoteListing { requested_list_path: request.list_path },
            );
            return Some(start);
        }
        None
    }

    /// The path of the selected row, if there is one.
    pub open spec fn selected_path(self) -> Option<Seq<char>> {
        if self.modal.selected < self.rows().len() {
            Some(self.rows()[self.modal.selected as int].1)
        } else {
            None
        }
    }

    /// Puts the selected row into the query line so that it is browsed.
    pub fn complete_selection(&mut self, now_ms: u64)
        ensures
            match old(self).selected_path() {
                Some(path) => {
                    &&& final(self).modal.query@ == browse_query(path)
                    &&& final(self).last_query_ms == now_ms
                },
                None => {
                    &&& final(self).modal.query@ == old(self).modal.query@
                    &&& final(self).last_query_ms == old(self).last_query_ms
                },
            },
            final(self).same_list(*old(self)),
            final(self).same_search(*old(self)),
    {
        let at: usize = self.modal.selected_index();
        if at >= self.results.len() {
            return ;
        }
        assert(self.rows()[at as int].1 == self.results@[at as int].resolved_path@);
        let query = browse_query_for(self.results[at].resolved_path.as_str());
        self.modal.set_query(query);
        self.last_query_ms = now_ms;
    }

    /// What Enter picks: the shown directory where the query names it, else the
    /// selected row, else the typed path, else the shown directory.
    pub open spec fn confirmed(self) -> Option<Seq<char>> {
        let query = trim(self.modal.query@);
        if targets_current(query, self.current_dir@) {
            Some(self.current_dir@)
        } else if self.selected_path() is Some {
            self.selected_path()
        } else if query.len() > 0 {
            Some(query)
        } else if self.current_dir@.len() > 0 {
            Some(self.current_dir@)
        } else {
            None
        }
    }

    pub fn confirm_selection(&self) -> (action: RemoteDestinationPickerAction)
        ensures
            match self.confirmed() {
                Some(path) => action matches RemoteDestinationPickerAction::Selected(chosen)
                    && chosen@ == path,
                None => action is Idle,
            },
    {
        let query = trimmed(self.modal.query());
        if query_targets_current_dir(query.as_str(), self.current_dir.as_str()) {
            return RemoteDestinationPickerAction::Selected(self.current_dir.clone());
        }
        let at: usize = self.modal.selected_index();
        if at < self.results.len() {
            assert(self.rows()[at as int].1 == self.results@[at as int].resolved_path@);
            return RemoteDestinationPickerAction::Selected(self.results[at].resolved_path.clone());
        }
        if !query.as_str().is_empty() {
            return RemoteDestinationPickerAction::Selected(query);
        }
        if !self.current_dir.as_str().is_empty() {
            return RemoteDestinationPickerAction::Selected(self.current_dir.clone());
        }
        RemoteDestinationPickerAction::Idle
    }

    /// What an action of the modal does to the picker.
    pub fn act(&mut self, action: PickerModalAction, now_ms: u64) -> (answer:
        RemoteDestinationPickerAction)
        requires
            action matches PickerModalAction::ClickedRow(row) ==> row < old(self).results@.len(),
        ensures
            final(self).same_list(*old(self)),
            final(self).same_search(*old(self)),
            final(self).last_query_ms == (if action is CompleteSelection && old(
                self,
            ).selected_path() is Some {
                now_ms
            } else {
                old(self).last_query_ms
            }),
            final(self).modal.query@ == (if action is CompleteSelection && old(
                self,
            ).selected_path() is Some {
                browse_query(old(self).selected_path()->0)
            } else {
                old(self).modal.query@
            }),
            match action {
                PickerModalAction::Idle | PickerModalAction::CompleteSelection => answer is Idle,
                PickerModalAction::Cancelled => answer is Cancelled,
                PickerModalAction::Submit | PickerModalAction::FooterAction => match old(
                    self,
                ).confirmed() {
                    Some(path) => answer matches RemoteDestinationPickerAction::Selected(chosen)
                        && chosen@ == path,
                    None => answer is Idle,
                },
                PickerModalAction::ClickedRow(row) => answer matches
                    RemoteDestinationPickerAction::Selected(chosen) && chosen@ == old(
                    self,
                ).rows()[row as int].1,
            },
    {
        match action {
            PickerModalAction::Idle => RemoteDestinationPickerAction::Idle,
            PickerModalAction::Cancelled => RemoteDestinationPickerAction::Cancelled,
            PickerModalAction::Submit | PickerModalAction::FooterAction => self.confirm_selection(),
            PickerModalAction::CompleteSelection => {
                self.complete_selection(now_ms);
                RemoteDestinationPickerAction::Idle
            },
            PickerModalAction::ClickedRow(row) => RemoteDestinationPickerAction::Selected(
                self.results[row].resolved_path.clone(),
            ),
        }
    }
}

/// Browsing a path that does not start with white space lists just that path,
/// with nothing filtered out.
pub proof fn law_browsing_a_path_lists_it(path: Seq<char>)
    requires
        path.len() > 0,
        !crate::text::white_space(path[0]),
    ensures
        list_path_of(trim(browse_query(path))) == path,
        prefix_of(trim(browse_query(path))).len() == 0,
{
    let query = browse_query(path);
    assert(query[0] == path[0] && query.last() == '/');
    crate::text::lemma_trim_start(query, 0);
    crate::text::lemma_trim_end(query, query.len() as int);
    assert(query.skip(0) =~= query);
    assert(query.take(query.len() as int) =~= query);
    crate::text::lemma_last_index(query, '/', query.len() - 1);
    assert(query.take(query.len() - 1) =~= path || path == seq!['/']);
}

/// Two queries that differ only behind their last slash ask for one listing.
pub proof fn law_a_listing_serves_every_prefix(
    pending: PendingRemoteListing,
    dir: Seq<char>,
    one: Seq<char>,
    other: Seq<char>,
)
    requires
        trim(dir.push('/') + one) == dir.push('/') + one,
        trim(dir.push('/') + other) == dir.push('/') + other,
        last_index(one, '/') == -1,
        last_index(other, '/') == -1,
    ensures
        pending.answers(dir.push('/') + one) == pending.answers(dir.push('/') + other),
{
    lemma_slash_before(dir, one);
    lemma_slash_before(dir, other);
    assert((dir.push('/') + one).take(dir.len() as int) =~= dir);
    assert((dir.push('/') + other).take(dir.len() as int) =~= dir);
}

proof fn lemma_slash_before(dir: Seq<char>, leaf: Seq<char>)
    requires
        last_index(leaf, '/') == -1,
    ensures
        last_index(dir.push('/') + leaf, '/') == dir.len(),
    decreases leaf.len(),
{
    let whole = dir.push('/') + leaf;
    if leaf.len() == 0 {
        assert(whole =~= dir.push('/'));
    } else {
        assert(whole.drop_last() =~= dir.push('/') + leaf.drop_last());
        lemma_slash_before(dir, leaf.drop_last());
    }
}

/// A query browses the directory before its last slash for entries that start
/// with what follows; without a slash it browses the home directory, and below
/// the root the root itself.
pub proof fn law_queries_browse_up_to_their_last_slash(dir: Seq<char>, leaf: Seq<char>)
    requires
        last_index(leaf, '/') == -1,
    ensures
        prefix_of(dir.push('/') + leaf) == leaf,
        dir.len() > 0 ==> list_path_of(dir.push('/') + leaf) == dir,
        dir.len() == 0 ==> list_path_of(dir.push('/') + leaf) == seq!['/'],
        list_path_of(leaf).len() == 0,
        prefix_of(leaf) == leaf,
{
    lemma_slash_before(dir, leaf);
    let whole = dir.push('/') + leaf;
    assert(whole.take(dir.len() as int) =~= dir);
    assert(whole.skip((dir.len() + 1) as int) =~= leaf);
    assert(leaf.skip(0) =~= leaf);
}

/// Every entry that starts with the query's end, whatever the case of either, is
/// offered in its order with its path, and no other.
pub proof fn law_entries_that_match_are_offered(
    names: Seq<Seq<char>>,
    name: Seq<char>,
    prefix: Seq<char>,
    dir: Seq<char>,
)
    ensures
        offered(Seq::empty(), prefix, dir).len() == 0,
        ({
            let (small, wanted) = (ascii_lowercase(name), ascii_lowercase(prefix));
            let fits = wanted.len() <= small.len() && small.take(wanted.len() as int) == wanted;
            &&& fits ==> offered(names.push(name), prefix, dir) == offered(
                names,
                prefix,
                dir,
            ).push((name, browser_path(dir, name)))
            &&& !fits ==> offered(names.push(name), prefix, dir) == offered(names, prefix, dir)
        }),
{
    assert(names.push(name).drop_last() =~= names);
}

/// A changed query is listed once it has been left alone for a hundred and
/// twenty milliseconds, an unchanged one never.
pub proof fn law_listings_wait_for_a_pause(picker: RemoteDestinationPicker, now_ms: u64)
    ensures
        picker.listing_due(now_ms) <==> picker.modal.query@ != picker.last_query_sent@ && now_ms
            >= picker.last_query_ms + 120,
{
}

/// What arrives counts only where it is the listing of the directory that the
/// query asks for by now.
pub proof fn law_late_listings_are_dropped(picker: RemoteDestinationPicker, poll: ListingPoll)
    ensures
        poll is Empty ==> !picker.takes(poll),
        picker.pending_listing is None ==> !picker.takes(poll),
        picker.pending_listing matches Some(pending) ==> (picker.takes(poll) <==> !(poll is Empty)
            && pending.requested_list_path@ == list_path_of(trim(picker.modal.query@))),
{
}

/// Enter picks the shown directory where the query names it, with or without a
/// slash behind; else the selected row; else what was typed; else the shown
/// directory; and nothing where there is none of these.
pub proof fn law_enter_picks_the_nearest_directory(picker: RemoteDestinationPicker)
    ensures
        ({
            let query = trim(picker.modal.query@);
            let current = picker.current_dir@;
            let names_it = current.len() > 0 && (query == current || (current != seq!['/'] && query
                == current.push('/')));
            let row = picker.modal.selected as int;
            &&& names_it ==> picker.confirmed() == Some(current)
            &&& !names_it && row < picker.results@.len() ==> picker.confirmed() == Some(
                picker.results@[row].resolved_path@,
            )
            &&& !names_it && row >= picker.results@.len() && query.len() > 0
                ==> picker.confirmed() == Some(query)
            &&& row >= picker.results@.len() && query.len() == 0 && current.len() > 0
                ==> picker.confirmed() == Some(current)
            &&& row >= picker.results@.len() && query.len() == 0 && current.len() == 0
                ==> picker.confirmed() is None
        }),
{
}

/// A row stands for the entry's own path.
pub proof fn law_the_selected_row_is_its_path(picker: RemoteDestinationPicker)
    ensures
        ({
            let row = picker.modal.selected as int;
            &&& row < picker.results@.len() ==> picker.selected_path() == Some(
                picker.results@[row].resolved_path@,
            )
            &&& row >= picker.results@.len() ==> picker.selected_path() is None
        }),
{
}

/// The directory that is shown is named with a slash behind it and without one,
/// and by nothing else.
pub proof fn law_shown_directories_are_named_two_ways(query: Seq<char>, dir: Seq<char>)
    requires
        dir.len() > 0,
        dir.last() != '/',
    ensures
        targets_current(dir, dir),
        targets_current(dir.push('/'), dir),
        targets_current(query, dir) ==> query == dir || query == dir.push('/'),
        !targets_current(query, Seq::empty()),
{
    assert(seq!['/'].last() == '/');
}

/// Entries are seen by their names and paths, in their order.
pub proof fn law_entries_are_seen_in_order(list: Seq<RemoteDestinationEntry>, k: int)
    requires
        0 <= k < list.len(),
    ensures
        entry_views(list).len() == list.len(),
        entry_views(list)[k] == (list[k].name@, list[k].resolved_path@),
{
}

/// Two lists are the same in their rows, their directory and their selection; two
/// searches in what was asked and what came back.
pub proof fn law_pickers_are_the_same_in_all(
    a: RemoteDestinationPicker,
    b: RemoteDestinationPicker,
)
    ensures
        a.same_list(b) ==> a.rows() == b.rows() && a.current_dir@ == b.current_dir@
            && a.modal.selected == b.modal.selected,
        a.same_search(b) ==> a.error == b.error && a.pending_listing == b.pending_listing
            && a.last_query_sent == b.last_query_sent && a.initial_results_loaded
            == b.initial_results_loaded && a.modal.opened_at_ms == b.modal.opened_at_ms,
{
}

} // verus!
