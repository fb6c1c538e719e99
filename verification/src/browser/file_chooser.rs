//! The picker that answers a page's file request.
use vstd::prelude::*;

use crate::text::{
    chars_of, concat2, copy_opt, decimal, decimal_of, opt_text, same_text, string_of, texts, trim,
    trimmed,
};

verus! {

/// How much of the accepted types is shown.
pub const SHOWN_ACCEPT: usize = 160;

pub struct FileChooserRequest {
    pub id: u64,
    pub multiple: bool,
    pub origin: String,
    pub accept: String,
}

pub struct DirectoryEntry {
    pub path: String,
    pub directory: bool,
}

pub struct DirectoryListing {
    pub entries: Vec<DirectoryEntry>,
    pub truncated: bool,
}

pub struct EntryView {
    pub path: Seq<char>,
    pub directory: bool,
}

pub struct ListingView {
    pub entries: Seq<EntryView>,
    pub truncated: bool,
}

impl View for DirectoryListing {
    type V = ListingView;

    open spec fn view(&self) -> ListingView {
        ListingView {
            entries: self.entries@.map_values(
                |e: DirectoryEntry| EntryView { path: e.path@, directory: e.directory },
            ),
            truncated: self.truncated,
        }
    }
}

pub open spec fn listing_view(listing: Option<DirectoryListing>) -> Option<ListingView> {
    match listing {
        Some(l) => Some(l@),
        None => None,
    }
}

pub enum FileChooserAnswer {
    Cancel,
    Files(Vec<String>),
}

pub enum AnswerView {
    Cancel,
    Files(Seq<Seq<char>>),
}

impl View for FileChooserAnswer {
    type V = AnswerView;

    open spec fn view(&self) -> AnswerView {
        match self {
            FileChooserAnswer::Cancel => AnswerView::Cancel,
            FileChooserAnswer::Files(files) => AnswerView::Files(texts(files@)),
        }
    }
}

pub open spec fn answer_view(answer: Option<FileChooserAnswer>) -> Option<AnswerView> {
    match answer {
        Some(a) => Some(a@),
        None => None,
    }
}

pub struct FilePicker {
    pub id: u64,
    pub directory: String,
    /// The path field.
    pub path: String,
    pub listing: Option<DirectoryListing>,
    pub loading: bool,
    pub selected: Vec<String>,
    pub error: Option<String>,
    /// An answer was taken.
    pub submitted: bool,
}

pub struct PickerView {
    pub id: u64,
    pub directory: Seq<char>,
    pub path: Seq<char>,
    pub listing: Option<ListingView>,
    pub loading: bool,
    pub selected: Seq<Seq<char>>,
    pub error: Option<Seq<char>>,
    pub submitted: bool,
}

impl View for FilePicker {
    type V = PickerView;

    open spec fn view(&self) -> PickerView {
        PickerView {
            id: self.id,
            directory: self.directory@,
            path: self.path@,
            listing: listing_view(self.listing),
            loading: self.loading,
            selected: texts(self.selected@),
            error: opt_text(self.error),
            submitted: self.submitted,
        }
    }
}

/// What a frame brings to the picker.
pub struct PickerFrame {
    /// A directory was read.
    pub loaded: Option<Result<DirectoryListing, String>>,
    /// The directory above; the root has none.
    pub parent: Option<String>,
    pub up: bool,
    /// The button beside the path field, or Enter in it.
    pub go: bool,
    /// The entry that was clicked.
    pub entry: Option<usize>,
    pub cancel: bool,
    pub open: bool,
}

pub enum LoadedView {
    Listing(ListingView),
    Failed(Seq<char>),
}

pub open spec fn loaded_view(loaded: Option<Result<DirectoryListing, String>>) -> Option<LoadedView> {
    match loaded {
        Some(Ok(l)) => Some(LoadedView::Listing(l@)),
        Some(Err(e)) => Some(LoadedView::Failed(e@)),
        None => None,
    }
}

/// `selected` without every copy of `path`.
pub open spec fn without_path(selected: Seq<Seq<char>>, path: Seq<char>) -> Seq<Seq<char>>
    decreases selected.len(),
{
    if selected.len() == 0 {
        Seq::empty()
    } else if selected.last() == path {
        without_path(selected.drop_last(), path)
    } else {
        without_path(selected.drop_last(), path).push(selected.last())
    }
}

/// A click takes a selected file out; else it joins the selection, or takes its
/// place where one file is asked for.
pub open spec fn toggled(selected: Seq<Seq<char>>, path: Seq<char>, multiple: bool) -> Seq<
    Seq<char>,
> {
    if selected.contains(path) {
        without_path(selected, path)
    } else if multiple {
        selected.push(path)
    } else {
        seq![path]
    }
}

impl PickerView {
    pub open spec fn started(id: u64, home: Seq<char>) -> PickerView {
        PickerView {
            id,
            directory: home,
            path: home,
            listing: None,
            loading: true,
            selected: Seq::empty(),
            error: None,
            submitted: false,
        }
    }

    /// Reading a directory starts it with nothing listed and nothing selected.
    pub open spec fn moved_to(self, directory: Seq<char>) -> PickerView {
        PickerView {
            directory,
            path: directory,
            listing: None,
            loading: true,
            selected: Seq::empty(),
            error: None,
            ..self
        }
    }

    pub open spec fn heard(self, loaded: Option<LoadedView>) -> PickerView {
        if !self.loading {
            self
        } else {
            match loaded {
                Some(LoadedView::Listing(listing)) => PickerView {
                    listing: Some(listing),
                    loading: false,
                    ..self
                },
                Some(LoadedView::Failed(error)) => PickerView {
                    error: Some(error),
                    loading: false,
                    ..self
                },
                None => self,
            }
        }
    }

    pub open spec fn clicked_entry(self, entry: Option<usize>) -> Option<EntryView> {
        match (self.listing, entry) {
            (Some(listing), Some(i)) => if i < listing.entries.len() {
                Some(listing.entries[i as int])
            } else {
                None
            },
            _ => None,
        }
    }

    /// Where the clicks lead: a directory in the list before the path field,
    /// and that before the directory above.
    pub open spec fn leads_to(
        self,
        parent: Option<Seq<char>>,
        up: bool,
        go: bool,
        entry: Option<usize>,
    ) -> Option<Seq<char>> {
        match self.clicked_entry(entry) {
            Some(e) => if e.directory {
                Some(e.path)
            } else if go {
                Some(trim(self.path))
            } else if up {
                parent
            } else {
                None
            },
            None => if go {
                Some(trim(self.path))
            } else if up {
                parent
            } else {
                None
            },
        }
    }

    /// What one frame does to the picker.
    pub open spec fn after_clicks(
        self,
        multiple: bool,
        parent: Option<Seq<char>>,
        up: bool,
        go: bool,
        entry: Option<usize>,
    ) -> PickerView {
        let marked = match self.clicked_entry(entry) {
            Some(e) => if e.directory {
                self
            } else {
                PickerView { selected: toggled(self.selected, e.path, multiple), ..self }
            },
            None => self,
        };
        match self.leads_to(parent, up, go, entry) {
            Some(directory) => marked.moved_to(directory),
            None => marked,
        }
    }

    pub open spec fn answer(self, cancel: bool, open: bool) -> Option<AnswerView> {
        if cancel {
            Some(AnswerView::Cancel)
        } else if open && self.selected.len() > 0 {
            Some(AnswerView::Files(self.selected))
        } else {
            None
        }
    }
}

fn position_of(selected: &Vec<String>, path: &str) -> (found: bool)
    ensures
        found == texts(selected@).contains(path@),
{
    let mut i: usize = 0;
    while i < selected.len()
        invariant
            i <= selected@.len(),
            forall|j: int| 0 <= j < i ==> (#[trigger] selected@[j])@ != path@,
        decreases selected@.len() - i,
    {
        if same_text(selected[i].as_str(), path) {
            assert(texts(selected@)[i as int] == path@);
            return true;
        }
        i = i + 1;
    }
    assert(!texts(selected@).contains(path@)) by {
        if texts(selected@).contains(path@) {
            let j = choose|j: int| 0 <= j < texts(selected@).len() && texts(selected@)[j] == path@;
            assert(selected@[j]@ == path@);
        }
    }
    false
}

fn take_out(selected: &Vec<String>, path: &str) -> (rest: Vec<String>)
    ensures
        texts(rest@) == without_path(texts(selected@), path@),
{
    let mut rest: Vec<String> = Vec::new();
    assert(texts(rest@) =~= without_path(texts(selected@).take(0), path@));
    let mut i: usize = 0;
    while i < selected.len()
        invariant
            i <= selected@.len(),
            texts(rest@) == without_path(texts(selected@).take(i as int), path@),
        decreases selected@.len() - i,
    {
        let ghost before = texts(rest@);
        assert(texts(selected@).take(i + 1).drop_last() =~= texts(selected@).take(i as int));
        assert(texts(selected@).take(i + 1).last() == selected@[i as int]@);
        if !same_text(selected[i].as_str(), path) {
            rest.push(selected[i].clone());
            assert(texts(rest@) =~= before.push(selected@[i as int]@));
        }
        i = i + 1;
    }
    assert(texts(selected@).take(i as int) =~= texts(selected@));
    rest
}

fn copy_all(list: &Vec<String>) -> (copy: Vec<String>)
    ensures
        texts(copy@) == texts(list@),
{
    let mut copy: Vec<String> = Vec::new();
    let mut i: usize = 0;
    while i < list.len()
        invariant
            i <= list@.len(),
            texts(copy@) =~= texts(list@).take(i as int),
        decreases list@.len() - i,
    {
        let ghost before = texts(copy@);
        copy.push(list[i].clone());
        assert(texts(copy@) =~= before.push(texts(list@)[i as int]));
        i = i + 1;
    }
    copy
}

impl FilePicker {
    /// A picker that starts in the home directory, which is then to be read.
    pub fn new(id: u64, home: &str) -> (picker: Self)
        ensures
            picker@ == PickerView::started(id, home@),
    {
        let selected: Vec<String> = Vec::new();
        assert(texts(selected@) =~= Seq::<Seq<char>>::empty());
        FilePicker {
            id,
            directory: home.to_string(),
            path: home.to_string(),
            listing: None,
            loading: true,
            selected,
            error: None,
            submitted: false,
        }
    }

    fn load(&mut self, directory: String)
        ensures
            final(self)@ == old(self)@.moved_to(directory@),
    {
        self.path = directory.clone();
        self.directory = directory;
        self.listing = None;
        self.selected = Vec::new();
        self.error = None;
        self.loading = true;
        assert(texts(self.selected@) =~= Seq::<Seq<char>>::empty());
    }

    /// One frame of the picker. Says what it answers, and whether its directory
    /// is now to be read.
    pub fn content(&mut self, multiple: bool, frame: PickerFrame) -> (out: (
        Option<FileChooserAnswer>,
        bool,
    ))
        ensures
            ({
                let heard = old(self)@.heard(loaded_view(frame.loaded));
                let parent = opt_text(frame.parent);
                &&& final(self)@ == heard.after_clicks(
                    multiple,
                    parent,
                    frame.up,
                    frame.go,
                    frame.entry,
                )
                &&& answer_view(out.0) == final(self)@.answer(frame.cancel, frame.open)
                &&& out.1 == (heard.leads_to(parent, frame.up, frame.go, frame.entry) is Some)
            }),
    {
        let ghost heard = self@.heard(loaded_view(frame.loaded));
        let ghost parent = opt_text(frame.parent);
        if self.loading {
            match frame.loaded {
                Some(Ok(listing)) => {
                    self.listing = Some(listing);
                    self.loading = false;
                },
                Some(Err(error)) => {
                    self.error = Some(error);
                    self.loading = false;
                },
                None => {},
            }
        }
        assert(self@ == heard);
        let mut navigate: Option<String> = None;
        if frame.up {
            navigate = copy_opt(&frame.parent);
        }
        if frame.go {
            navigate = Some(trimmed(self.path.as_str()));
        }
        if let Some(listing) = &self.listing {
            if let Some(i) = frame.entry {
                if i < listing.entries.len() {
                    assert(listing@.entries[i as int] == (EntryView {
                        path: listing.entries@[i as int].path@,
                        directory: listing.entries@[i as int].directory,
                    }));
                    let path = listing.entries[i].path.clone();
                    if listing.entries[i].directory {
                        navigate = Some(path);
                    } else if position_of(&self.selected, path.as_str()) {
                        self.selected = take_out(&self.selected, path.as_str());
                    } else {
                        if !multiple {
                            self.selected = Vec::new();
                            assert(texts(self.selected@) =~= Seq::<Seq<char>>::empty());
                        }
                        let ghost kept = texts(self.selected@);
                        self.selected.push(path);
                        assert(texts(self.selected@) =~= kept.push(path@));
                        assert(multiple ==> texts(self.selected@) =~= toggled(
                            heard.selected,
                            path@,
                            true,
                        ));
                        assert(!multiple ==> texts(self.selected@) =~= seq![path@]);
                    }
                }
            }
        }
        assert(opt_text(navigate) == heard.leads_to(parent, frame.up, frame.go, frame.entry));
        let moves = navigate.is_some();
        if let Some(directory) = navigate {
            self.load(directory);
        }
        let answer = if frame.cancel {
            Some(FileChooserAnswer::Cancel)
        } else if frame.open && self.selected.len() > 0 {
            Some(FileChooserAnswer::Files(copy_all(&self.selected)))
        } else {
            None
        };
        (answer, moves)
    }
}

pub open spec fn picker_view(state: Option<FilePicker>) -> Option<PickerView> {
    match state {
        Some(p) => Some(p@),
        None => None,
    }
}

/// The picker belongs to the request that is open: none without one, a new one
/// for another. A refused answer is shown, and can be given again.
pub open spec fn attended(
    state: Option<PickerView>,
    request: Option<u64>,
    home: Seq<char>,
    refused: Option<Seq<char>>,
) -> Option<PickerView> {
    match request {
        None => None,
        Some(id) => {
            let current = match state {
                Some(p) => if p.id == id {
                    p
                } else {
                    PickerView::started(id, home)
                },
                None => PickerView::started(id, home),
            };
            match refused {
                Some(error) => Some(
                    PickerView { error: Some(error), submitted: false, ..current },
                ),
                None => Some(current),
            }
        },
    }
}

/// Brings the picker in line with the request. Says whether a new one is to
/// read its directory.
pub fn attend(
    state: &mut Option<FilePicker>,
    request: Option<u64>,
    home: &str,
    refused: Option<String>,
) -> (reads: bool)
    ensures
        picker_view(*final(state)) == attended(
            picker_view(*old(state)),
            request,
            home@,
            opt_text(refused),
        ),
        reads == (request is Some && !(picker_view(*old(state)) matches Some(p) && p.id
            == request->0)),
{
    match request {
        None => {
            *state = None;
            false
        },
        Some(id) => {
            let mut fresh = true;
            let mut picker = match state.take() {
                Some(p) => if p.id == id {
                    fresh = false;
                    p
                } else {
                    FilePicker::new(id, home)
                },
                None => FilePicker::new(id, home),
            };
            if let Some(error) = refused {
                picker.error = Some(error);
                picker.submitted = false;
            }
            *state = Some(picker);
            fresh
        },
    }
}

/// What is answered, and whether Escape cancelled. A picker whose answer was
/// taken gives no other; closing it cancels.
pub fn settle(
    submitted: bool,
    answer: Option<FileChooserAnswer>,
    close: bool,
    escape: bool,
) -> (out: (Option<FileChooserAnswer>, bool))
    ensures
        ({
            let given = match answer_view(answer) {
                Some(a) => Some(a),
                None => if close {
                    Some(AnswerView::Cancel)
                } else {
                    None
                },
            };
            &&& answer_view(out.0) == if submitted {
                None
            } else {
                given
            }
            &&& out.1 == (!submitted && given is Some && escape)
        }),
{
    if submitted {
        return (None, false);
    }
    let given = match answer {
        Some(a) => Some(a),
        None => if close {
            Some(FileChooserAnswer::Cancel)
        } else {
            None
        },
    };
    let cancelled = given.is_some() && escape;
    (given, cancelled)
}

pub fn heading(multiple: bool) -> (text: &'static str)
    ensures
        text@ == if multiple {
            "Choose files"@
        } else {
            "Choose a file"@
        },
{
    if multiple {
        "Choose files"
    } else {
        "Choose a file"
    }
}

pub fn origin_label(origin: &str) -> (text: String)
    ensures
        text@ == "Upload to "@ + origin@,
{
    concat2("Upload to ", origin)
}

pub open spec fn shown_accept(accept: Seq<char>) -> Seq<char> {
    if accept.len() > SHOWN_ACCEPT {
        accept.take(SHOWN_ACCEPT as int)
    } else {
        accept
    }
}

/// The accepted types, where the page names any.
pub fn accept_label(accept: &str) -> (text: Option<String>)
    ensures
        match text {
            Some(t) => accept@.len() > 0 && t@ == "Accepted types: "@ + shown_accept(accept@),
            None => accept@.len() == 0,
        },
{
    let chars = chars_of(accept);
    let len: usize = chars.len();
    if len == 0 {
        return None;
    }
    let to: usize = if len > SHOWN_ACCEPT {
        SHOWN_ACCEPT
    } else {
        len
    };
    let shown = string_of(chars.as_slice(), 0, to);
    assert(shown@ =~= shown_accept(accept@));
    Some(concat2("Accepted types: ", shown.as_str()))
}

pub fn entry_label(name: &str, directory: bool) -> (text: String)
    ensures
        text@ == if directory {
            name@ + "/"@
        } else {
            name@
        },
{
    if directory {
        concat2(name, "/")
    } else {
        name.to_string()
    }
}

pub fn selected_label(count: usize) -> (text: String)
    ensures
        text@ == decimal(count as nat) + " selected"@,
{
    let number = decimal_of(count as u64);
    concat2(number.as_str(), " selected")
}

proof fn lemma_without_path(selected: Seq<Seq<char>>, path: Seq<char>)
    ensures
        without_path(selected, path).len() <= selected.len(),
        !without_path(selected, path).contains(path),
        forall|p: Seq<char>|
            p != path ==> (without_path(selected, path).contains(p) <==> #[trigger] selected.contains(
                p,
            )),
    decreases selected.len(),
{
    broadcast use vstd::seq_lib::group_seq_properties;

    if selected.len() > 0 {
        let rest = selected.drop_last();
        lemma_without_path(rest, path);
        assert(selected =~= rest.push(selected.last()));
    }
}

/// A click marks exactly the file that was clicked, or takes exactly it out; the
/// rest of a choice of many is as it was.
pub proof fn law_clicks_toggle_one_file(
    selected: Seq<Seq<char>>,
    path: Seq<char>,
    multiple: bool,
    other: Seq<char>,
)
    ensures
        toggled(selected, path, multiple).contains(path) == !selected.contains(path),
        multiple && other != path ==> toggled(selected, path, multiple).contains(other)
            == selected.contains(other),
{
    broadcast use vstd::seq_lib::group_seq_properties;

    lemma_without_path(selected, path);
    assert(seq![path].contains(path)) by {
        assert(seq![path][0] == path);
    }
    assert(selected.contains(other) == selected.contains(other));
}

/// A page that asks for one file never gets more than one.
pub proof fn law_single_requests_get_one_file(
    picker: PickerView,
    parent: Option<Seq<char>>,
    up: bool,
    go: bool,
    entry: Option<usize>,
)
    requires
        picker.selected.len() <= 1,
    ensures
        picker.after_clicks(false, parent, up, go, entry).selected.len() <= 1,
{
    match picker.clicked_entry(entry) {
        Some(e) => {
            lemma_without_path(picker.selected, e.path);
        },
        None => {},
    }
}

/// A picker starts in the home directory and reads it, with nothing marked; going
/// somewhere reads that and forgets what was marked.
pub proof fn law_pickers_read_where_they_are(picker: PickerView, id: u64, directory: Seq<char>)
    ensures
        ({
            let first = PickerView::started(id, directory);
            let after = picker.moved_to(directory);
            &&& first.id == id && first.directory == directory && first.path == directory
            &&& first.listing is None && first.loading && first.selected.len() == 0
                && first.error is None && !first.submitted
            &&& after.id == picker.id && after.directory == directory && after.path == directory
            &&& after.listing is None && after.loading && after.selected.len() == 0
                && after.error is None && after.submitted == picker.submitted
        }),
{
}

/// A directory that was read is listed, or the reason why not is shown; what
/// comes unasked is not heard.
pub proof fn law_readings_are_heard_once(
    picker: PickerView,
    listing: ListingView,
    error: Seq<char>,
)
    ensures
        ({
            let read = picker.heard(Some(LoadedView::Listing(listing)));
            let failed = picker.heard(Some(LoadedView::Failed(error)));
            &&& picker.loading ==> read.listing == Some(listing) && !read.loading && read.error
                == picker.error
            &&& picker.loading ==> failed.error == Some(error) && !failed.loading
                && failed.listing == picker.listing
            &&& !picker.loading ==> read == picker && failed == picker
            &&& picker.heard(None) == picker
            &&& read.selected == picker.selected && failed.selected == picker.selected
        }),
{
}

/// A directory that is clicked is gone to; else the button goes to the path that
/// was typed, without the space around it, and the other one up.
pub proof fn law_clicks_lead_somewhere(
    picker: PickerView,
    parent: Option<Seq<char>>,
    up: bool,
    go: bool,
    entry: Option<usize>,
)
    ensures
        ({
            let to = picker.leads_to(parent, up, go, entry);
            let clicked = picker.clicked_entry(entry);
            let inward = clicked matches Some(e) && e.directory;
            &&& inward ==> to == Some(clicked->0.path)
            &&& !inward && go ==> to == Some(trim(picker.path))
            &&& !inward && !go && up ==> to == parent
            &&& !inward && !go && !up ==> to is None
            &&& entry is None || picker.listing is None ==> clicked is None
            &&& entry is Some && picker.listing is Some && entry->0
                < picker.listing->0.entries.len() ==> clicked == Some(
                picker.listing->0.entries[entry->0 as int],
            )
            &&& to matches Some(directory) ==> picker.after_clicks(
                true,
                parent,
                up,
                go,
                entry,
            ).directory == directory
        }),
{
}

/// A file that is clicked is marked, or no longer; nothing else changes what is
/// marked in a directory that is stayed in.
pub proof fn law_files_are_marked_by_clicks(
    picker: PickerView,
    multiple: bool,
    parent: Option<Seq<char>>,
    entry: Option<usize>,
)
    ensures
        ({
            let after = picker.after_clicks(multiple, parent, false, false, entry);
            let clicked = picker.clicked_entry(entry);
            &&& clicked matches Some(e) ==> (!e.directory ==> after.selected == toggled(
                picker.selected,
                e.path,
                multiple,
            ) && after.directory == picker.directory && after.listing == picker.listing)
            &&& clicked is None ==> after == picker
        }),
{
}

/// Cancelling answers with nothing, opening with what is marked, in its order;
/// nothing is opened where nothing is marked.
pub proof fn law_answers_are_what_was_marked(picker: PickerView, cancel: bool, open: bool)
    ensures
        cancel ==> picker.answer(cancel, open) == Some(AnswerView::Cancel),
        !cancel && open && picker.selected.len() > 0 ==> picker.answer(cancel, open) == Some(
            AnswerView::Files(picker.selected),
        ),
        !cancel && (!open || picker.selected.len() == 0) ==> picker.answer(cancel, open) is None,
{
}

/// A file that joins a choice of many comes last; a choice of one becomes it.
pub proof fn law_marked_files_come_last(selected: Seq<Seq<char>>, path: Seq<char>)
    requires
        !selected.contains(path),
    ensures
        toggled(selected, path, true).len() == selected.len() + 1,
        toggled(selected, path, true).last() == path,
        toggled(selected, path, true).drop_last() =~= selected,
        toggled(selected, path, false) =~= seq![path],
{
}

/// The accepted types are shown up to their first 160 characters.
pub proof fn law_accepted_types_are_cut(accept: Seq<char>)
    ensures
        accept.len() <= 160 ==> shown_accept(accept) == accept,
        accept.len() > 160 ==> shown_accept(accept).len() == 160 && shown_accept(accept)
            == accept.take(160),
{
}

/// A picker belongs to its request: without one there is none, and another
/// request gets its own. A refused answer is shown and can be given again.
pub proof fn law_pickers_belong_to_their_request(
    state: Option<PickerView>,
    id: u64,
    home: Seq<char>,
    error: Seq<char>,
)
    ensures
        attended(state, None, home, None) is None,
        attended(state, None, home, Some(error)) is None,
        state is Some && state->0.id == id ==> attended(state, Some(id), home, None) == state,
        state is None || state->0.id != id ==> (attended(state, Some(id), home, None) matches Some(
            picker,
        ) && picker.id == id && picker.directory == home && picker.loading && picker.selected.len()
            == 0),
        attended(state, Some(id), home, Some(error)) matches Some(picker) && picker.id == id
            && picker.error == Some(error) && !picker.submitted,
        state is Some && state->0.id == id ==> (attended(state, Some(id), home, Some(error)) matches
            Some(picker) && picker.selected == state->0.selected && picker.directory
            == state->0.directory),
{
}

/// What is said of a picker is said of what it holds.
pub proof fn law_file_picker_is_seen_as_it_is(value: FilePicker)
    ensures
        value@.id == value.id,
        value@.directory == value.directory@,
        value@.path == value.path@,
        value@.listing == listing_view(value.listing),
        value@.loading == value.loading,
        value@.selected == texts(value.selected@),
        value@.error == opt_text(value.error),
        value@.submitted == value.submitted,
{
}

/// What is said of a listing is said of its entries, in their order.
pub proof fn law_directory_listing_is_seen_as_it_is(value: DirectoryListing, k: int)
    requires
        0 <= k < value.entries@.len(),
    ensures
        value@.truncated == value.truncated,
        value@.entries.len() == value.entries@.len(),
        value@.entries[k].path == value.entries@[k].path@,
        value@.entries[k].directory == value.entries@[k].directory,
        listing_view(Some(value)) == Some(value@),
        listing_view(None) is None,
{
}

/// Answers and what was read are seen as they are.
pub proof fn law_answers_are_seen_as_they_are(
    answer: FileChooserAnswer,
    listing: DirectoryListing,
    error: String,
    picker: FilePicker,
)
    ensures
        answer is Cancel ==> answer@ is Cancel,
        answer matches FileChooserAnswer::Files(files) ==> answer@ == AnswerView::Files(
            texts(files@),
        ),
        answer_view(Some(answer)) == Some(answer@),
        answer_view(None) is None,
        loaded_view(Some(Ok(listing))) == Some(LoadedView::Listing(listing@)),
        loaded_view(Some(Err(error))) == Some(LoadedView::Failed(error@)),
        loaded_view(None) is None,
        picker_view(Some(picker)) == Some(picker@),
        picker_view(None) is None,
{
}

} // verus!
