//! The Markdown editor of a panel: what is saved when, and what its bar says.
use vstd::prelude::*;

use crate::text::{concat2, opt_text};

verus! {

#[derive(Clone, Copy, Debug, PartialEq, Eq, Structural)]
pub enum PreviewMode {
    Edit,
    Preview,
    Split,
}

impl PreviewMode {
    /// A split view is shown as a preview.
    pub open spec fn previews(self) -> bool {
        self == PreviewMode::Preview || self == PreviewMode::Split
    }

    pub fn shows_preview(self) -> (yes: bool)
        ensures
            yes == self.previews(),
    {
        match self {
            PreviewMode::Edit => false,
            PreviewMode::Preview | PreviewMode::Split => true,
        }
    }

    /// The mode after clicks on the two buttons; the right one counts last.
    pub fn clicked(self, edit: bool, preview: bool) -> (mode: Self)
        ensures
            mode == if preview {
                PreviewMode::Preview
            } else if edit {
                PreviewMode::Edit
            } else {
                self
            },
    {
        if preview {
            PreviewMode::Preview
        } else if edit {
            PreviewMode::Edit
        } else {
            self
        }
    }
}

pub open spec fn title_of(file: Option<Seq<char>>, dirty: bool) -> Option<Seq<char>> {
    match file {
        Some(name) => Some(
            (if dirty {
                "* "@
            } else {
                ""@
            }) + name,
        ),
        None => if dirty {
            Some("* scratch"@)
        } else {
            None
        },
    }
}

/// What the bar says: the file's name, marked where it is not saved; a text
/// without a file only where it has changed.
pub fn editor_title(file: Option<&str>, dirty: bool) -> (title: Option<String>)
    ensures
        opt_text(title) == title_of(
            match file {
                Some(name) => Some(name@),
                None => None,
            },
            dirty,
        ),
{
    match file {
        Some(name) => {
            let mark = if dirty {
                "* "
            } else {
                ""
            };
            Some(concat2(mark, name))
        },
        None => if dirty {
            Some("* scratch".to_string())
        } else {
            None
        },
    }
}

/// The editor's text as far as saving goes.
#[derive(Clone, Copy, Debug, PartialEq, Eq, Structural)]
pub struct SaveState {
    pub dirty: bool,
}

impl SaveState {
    /// The save shortcut works but while a hotkey is being recorded. Says
    /// whether the text is to be saved; what is not changed is not.
    pub fn shortcut(&self, pressed: bool, recording_hotkey: bool) -> (save: bool)
        ensures
            save == (pressed && !recording_hotkey && self.dirty),
    {
        pressed && !recording_hotkey && self.dirty
    }

    /// A change in the text waits to be saved; one in the preview is saved at
    /// once. Says whether it is.
    pub fn changed(&mut self, changed: bool, preview: bool) -> (save: bool)
        ensures
            final(self).dirty == (old(self).dirty || changed),
            save == (changed && preview),
    {
        if changed {
            self.dirty = true;
        }
        changed && preview
    }
}

/// How many rows a text gets so that it fills its pane, by the heights of both
/// in thousandths of a point.
pub fn desired_rows(viewport_height: u32, row_height: u32) -> (rows: u32)
    requires
        row_height > 0,
    ensures
        rows >= 1,
        rows * row_height >= viewport_height,
        rows > 1 ==> (rows - 1) * row_height < viewport_height,
{
    let rows: u32 = if viewport_height == 0 {
        1
    } else {
        (viewport_height - 1) / row_height + 1
    };
    let ghost last: int = viewport_height - 1;
    if viewport_height > 0 {
        let ghost q: int = last / row_height as int;
        assert((q + 1) * row_height > last && q * row_height <= last) by (nonlinear_arith)
            requires
                q == last / row_height as int,
                row_height > 0,
                last >= 0,
        ;
    }
    assert(rows * row_height >= 0) by (nonlinear_arith)
        requires
            rows >= 0,
            row_height >= 0,
    ;
    rows
}

/// A file is named in the bar, with a star before it while it is not saved; a
/// text without a file only while it has changed.
pub proof fn law_titles_name_the_file(name: Seq<char>)
    ensures
        title_of(Some(name), false) matches Some(title) && title =~= name,
        title_of(Some(name), true) matches Some(title) && title =~= seq!['*', ' '] + name,
        title_of(None, true) == Some("* scratch"@),
        title_of(None, false) is None,
{
    reveal_strlit("");
    reveal_strlit("* ");
    assert("* "@ =~= seq!['*', ' ']);
    assert(""@ + name =~= name);
}

/// A preview is shown in its own mode and in the split one.
pub proof fn law_previews_are_shown_in_two_modes(mode: PreviewMode)
    ensures
        mode is Edit ==> !mode.previews(),
        mode is Preview || mode is Split ==> mode.previews(),
{
}

} // verus!
