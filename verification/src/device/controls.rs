//! The controls over the image: its scale, frame rate, limits and the crop.
use vstd::prelude::*;

use super::session::{same_viewport, DeviceViewOptions, DeviceViewport};
use crate::browser::zoom::PanelZoom;
use crate::text::{concat3, decimal, decimal_of, opt_text};

verus! {

pub const MAX_FPS: u32 = 30;

pub const MAX_IMAGE_SIDE: u32 = 8192;

pub struct Controls {
    pub options: DeviceViewOptions,
    /// The scale of the image; without one the whole image fits into the body.
    pub zoom: Option<PanelZoom>,
    /// The crop being typed, before it is applied.
    pub draft: Option<DeviceViewport>,
    pub error: Option<String>,
}

/// What one frame of the opened controls brought.
pub struct ControlsEdit {
    pub max_fps: u32,
    pub max_width: u32,
    pub max_height: u32,
    pub whole_clicked: bool,
    /// The crop as it was typed; `None` where nothing was.
    pub draft: Option<DeviceViewport>,
    pub apply_clicked: bool,
    /// Whether the options with the typed crop fit the desktop.
    pub layout: Result<(), String>,
}

pub struct ControlsFrame {
    pub desktop: Option<(usize, usize)>,
    /// The options as they fit that desktop: a crop outside it is dropped.
    pub fitted: DeviceViewOptions,
    /// Missing while the controls are collapsed.
    pub edit: Option<ControlsEdit>,
}

/// The controls as a value.
pub struct ControlsView {
    pub options: DeviceViewOptions,
    pub zoom: Option<PanelZoom>,
    pub draft: Option<DeviceViewport>,
    pub error: Option<Seq<char>>,
}

impl View for Controls {
    type V = ControlsView;

    open spec fn view(&self) -> ControlsView {
        ControlsView {
            options: self.options,
            zoom: self.zoom,
            draft: self.draft,
            error: opt_text(self.error),
        }
    }
}

pub open spec fn within(value: int, low: int, high: int) -> int {
    if value < low {
        low
    } else if value > high {
        high
    } else {
        value
    }
}

/// A typed crop, kept on the desktop side by side.
pub open spec fn kept_on(draft: DeviceViewport, desktop: (usize, usize)) -> DeviceViewport {
    DeviceViewport {
        x: within(draft.x as int, 0, desktop.0 - 1) as usize,
        y: within(draft.y as int, 0, desktop.1 - 1) as usize,
        width: within(draft.width as int, 1, desktop.0 as int) as usize,
        height: within(draft.height as int, 1, desktop.1 as int) as usize,
    }
}

pub open spec fn whole(desktop: (usize, usize)) -> DeviceViewport {
    DeviceViewport { x: 0, y: 0, width: desktop.0, height: desktop.1 }
}

impl ControlsView {
    /// The options follow the desktop; losing the crop loses its draft too.
    pub open spec fn fit(self, frame: ControlsFrame) -> ControlsView {
        if frame.desktop is None {
            self
        } else if frame.fitted.viewport == self.options.viewport {
            ControlsView { options: frame.fitted, ..self }
        } else {
            ControlsView { options: frame.fitted, draft: None, error: None, ..self }
        }
    }

    pub open spec fn limit(self, edit: ControlsEdit) -> ControlsView {
        ControlsView {
            options: DeviceViewOptions {
                max_fps: within(edit.max_fps as int, 1, MAX_FPS as int) as u32,
                max_width: within(edit.max_width as int, 1, MAX_IMAGE_SIDE as int) as u32,
                max_height: within(edit.max_height as int, 1, MAX_IMAGE_SIDE as int) as u32,
                ..self.options
            },
            ..self
        }
    }

    /// The button that undoes the crop is there.
    pub open spec fn offers_whole(self, desktop: Option<(usize, usize)>) -> bool {
        desktop is Some || self.options.viewport is Some
    }

    pub open spec fn reset(self, desktop: Option<(usize, usize)>, clicked: bool) -> ControlsView {
        if clicked && self.offers_whole(desktop) {
            ControlsView {
                options: DeviceViewOptions { viewport: None, ..self.options },
                draft: None,
                error: None,
                ..self
            }
        } else {
            self
        }
    }

    /// A crop is drafted, at first the whole desktop, and applied on request
    /// where it fits.
    pub open spec fn crop(self, desktop: (usize, usize), edit: ControlsEdit) -> ControlsView {
        let base = match self.draft {
            Some(d) => d,
            None => whole(desktop),
        };
        let draft = kept_on(
            match edit.draft {
                Some(d) => d,
                None => base,
            },
            desktop,
        );
        let drafted = ControlsView { draft: Some(draft), ..self };
        if !edit.apply_clicked {
            drafted
        } else {
            match edit.layout {
                Ok(_) => ControlsView {
                    options: DeviceViewOptions { viewport: Some(draft), ..self.options },
                    error: None,
                    ..drafted
                },
                Err(error) => ControlsView { error: Some(error@), ..drafted },
            }
        }
    }

    /// The zoom selector was used; without a person's hand it shows only.
    pub open spec fn picked(self, picked: Option<PanelZoom>, interactive: bool) -> ControlsView {
        if interactive {
            ControlsView { zoom: picked, ..self }
        } else {
            self
        }
    }

    pub open spec fn shown(self, frame: ControlsFrame) -> ControlsView {
        let fitted = self.fit(frame);
        match frame.edit {
            None => fitted,
            Some(edit) => {
                let ready = fitted.limit(edit).reset(frame.desktop, edit.whole_clicked);
                match frame.desktop {
                    None => ready,
                    Some(desktop) => ready.crop(desktop, edit),
                }
            },
        }
    }
}

fn keep_u32(value: u32, low: u32, high: u32) -> (kept: u32)
    requires
        low <= high,
    ensures
        kept == within(value as int, low as int, high as int),
{
    if value < low {
        low
    } else if value > high {
        high
    } else {
        value
    }
}

fn keep_usize(value: usize, low: usize, high: usize) -> (kept: usize)
    requires
        low <= high,
    ensures
        kept == within(value as int, low as int, high as int),
{
    if value < low {
        low
    } else if value > high {
        high
    } else {
        value
    }
}

impl Controls {
    pub fn new(options: DeviceViewOptions) -> (controls: Self)
        ensures
            controls@ == (ControlsView { options, zoom: None, draft: None, error: None }),
    {
        Controls { options, zoom: None, draft: None, error: None }
    }

    /// The zoom selector, which is always there, shows `picked`; the result
    /// tells whether that is another choice.
    pub fn zoom_dropdown(&mut self, picked: Option<PanelZoom>, interactive: bool) -> (changed: bool)
        ensures
            changed == (interactive && picked != old(self).zoom),
            final(self)@ == old(self)@.picked(picked, interactive),
    {
        if !interactive {
            return false;
        }
        let changed = match (self.zoom, picked) {
            (Some(before), Some(now)) => before != now,
            (None, None) => false,
            _ => true,
        };
        self.zoom = picked;
        changed
    }

    pub fn set_error(&mut self, error: String)
        ensures
            final(self)@ == (ControlsView { error: Some(error@), ..old(self)@ }),
    {
        self.error = Some(error);
    }

    fn crop(&mut self, desktop: (usize, usize), edit: &ControlsEdit)
        requires
            desktop.0 > 0,
            desktop.1 > 0,
        ensures
            final(self)@ == old(self)@.crop(desktop, *edit),
    {
        let base = match self.draft {
            Some(d) => d,
            None => DeviceViewport { x: 0, y: 0, width: desktop.0, height: desktop.1 },
        };
        let typed = match edit.draft {
            Some(d) => d,
            None => base,
        };
        let draft = DeviceViewport {
            x: keep_usize(typed.x, 0, desktop.0 - 1),
            y: keep_usize(typed.y, 0, desktop.1 - 1),
            width: keep_usize(typed.width, 1, desktop.0),
            height: keep_usize(typed.height, 1, desktop.1),
        };
        self.draft = Some(draft);
        if edit.apply_clicked {
            match &edit.layout {
                Ok(_) => {
                    self.options.viewport = Some(draft);
                    self.error = None;
                },
                Err(error) => {
                    self.error = Some(error.clone());
                },
            }
        }
    }

    /// One frame of the controls; the result tells whether the options changed.
    pub fn show(&mut self, frame: &ControlsFrame) -> (changed: bool)
        requires
            frame.desktop matches Some(desktop) ==> desktop.0 > 0 && desktop.1 > 0,
        ensures
            final(self)@ == old(self)@.shown(*frame),
            changed == (final(self).options != old(self).options),
    {
        let before = self.options;
        if frame.desktop.is_some() {
            self.options = frame.fitted;
            if !same_viewport(self.options.viewport, before.viewport) {
                self.draft = None;
                self.error = None;
            }
        }
        if let Some(edit) = &frame.edit {
            self.options.max_fps = keep_u32(edit.max_fps, 1, MAX_FPS);
            self.options.max_width = keep_u32(edit.max_width, 1, MAX_IMAGE_SIDE);
            self.options.max_height = keep_u32(edit.max_height, 1, MAX_IMAGE_SIDE);
            if edit.whole_clicked && (frame.desktop.is_some() || self.options.viewport.is_some()) {
                self.options.viewport = None;
                self.draft = None;
                self.error = None;
            }
            if let Some(desktop) = frame.desktop {
                self.crop(desktop, edit);
            }
        }
        before.max_fps != self.options.max_fps || !before.same_presentation(self.options)
    }

    /// Where the crop does not change, neither does the draft go: collapsed
    /// controls over a desktop that still fits keep everything but the fit.
    pub proof fn law_collapsed_controls_keep_a_fitting_draft(view: ControlsView, frame: ControlsFrame)
        requires
            frame.edit is None,
            frame.fitted.viewport == view.options.viewport,
        ensures
            view.shown(frame).draft == view.draft,
            view.shown(frame).error == view.error,
    {
    }
}

/// The sizes beside the button.
pub fn sizes_label(desktop: (usize, usize), image: (usize, usize)) -> (label: String)
    ensures
        label@ == "Desktop "@ + decimal(desktop.0 as nat) + "×"@ + decimal(desktop.1 as nat)
            + " · Image "@ + decimal(image.0 as nat) + "×"@ + decimal(image.1 as nat),
{
    let mut label = concat3("Desktop ", decimal_of(desktop.0 as u64).as_str(), "×");
    label.append(decimal_of(desktop.1 as u64).as_str());
    label.append(" · Image ");
    label.append(decimal_of(image.0 as u64).as_str());
    label.append("×");
    label.append(decimal_of(image.1 as u64).as_str());
    label
}

/// Limits stay between one and thirty frames a second, and one and 8192 pixels.
pub proof fn law_limits_are_kept(view: ControlsView, edit: ControlsEdit)
    ensures
        ({
            let after = view.limit(edit).options;
            &&& 1 <= after.max_fps <= 30
            &&& 1 <= after.max_width <= 8192 && 1 <= after.max_height <= 8192
            &&& 1 <= edit.max_fps <= 30 ==> after.max_fps == edit.max_fps
            &&& 1 <= edit.max_width <= 8192 ==> after.max_width == edit.max_width
            &&& 1 <= edit.max_height <= 8192 ==> after.max_height == edit.max_height
            &&& edit.max_fps > 30 ==> after.max_fps == 30
            &&& edit.max_width > 8192 ==> after.max_width == 8192
            &&& edit.max_height > 8192 ==> after.max_height == 8192
            &&& after.viewport == view.options.viewport
            &&& view.limit(edit).draft == view.draft
        }),
{
}

/// A crop that is drafted starts on the desktop and is no larger; one that does
/// so already is left as it was typed.
pub proof fn law_drafts_stay_on_the_desktop(draft: DeviceViewport, desktop: (usize, usize))
    requires
        desktop.0 > 0,
        desktop.1 > 0,
    ensures
        ({
            let kept = kept_on(draft, desktop);
            &&& kept.x < desktop.0 && kept.y < desktop.1
            &&& 1 <= kept.width <= desktop.0 && 1 <= kept.height <= desktop.1
            &&& draft.x < desktop.0 ==> kept.x == draft.x
            &&& draft.y < desktop.1 ==> kept.y == draft.y
            &&& 1 <= draft.width <= desktop.0 ==> kept.width == draft.width
            &&& 1 <= draft.height <= desktop.1 ==> kept.height == draft.height
        }),
{
}

/// The first draft is the whole desktop.
pub proof fn law_first_drafts_are_the_whole_desktop(
    view: ControlsView,
    desktop: (usize, usize),
    edit: ControlsEdit,
)
    requires
        desktop.0 > 0,
        desktop.1 > 0,
        view.draft is None,
        edit.draft is None,
    ensures
        view.crop(desktop, edit).draft == Some(
            DeviceViewport { x: 0, y: 0, width: desktop.0, height: desktop.1 },
        ),
{
}

/// A draft becomes the crop just where it was applied and fits; where it does
/// not fit, the reason is shown and the crop stays.
pub proof fn law_drafts_are_applied_where_they_fit(
    view: ControlsView,
    desktop: (usize, usize),
    edit: ControlsEdit,
)
    ensures
        ({
            let after = view.crop(desktop, edit);
            &&& after.draft is Some
            &&& edit.apply_clicked && edit.layout is Ok ==> after.options.viewport == after.draft
                && after.error is None
            &&& edit.apply_clicked && edit.layout is Err ==> after.options.viewport
                == view.options.viewport && after.error == Some(edit.layout->Err_0@)
            &&& !edit.apply_clicked ==> after.options == view.options && after.error == view.error
            &&& after.zoom == view.zoom
        }),
{
}

/// The whole desktop comes back with a click, where there is one or a crop.
pub proof fn law_the_whole_desktop_comes_back(
    view: ControlsView,
    desktop: Option<(usize, usize)>,
)
    requires
        desktop is Some || view.options.viewport is Some,
    ensures
        view.reset(desktop, true).options.viewport is None,
        view.reset(desktop, true).draft is None,
        view.reset(desktop, true).error is None,
        view.reset(desktop, false) == view,
{
}

/// A scale is picked by hand only.
pub proof fn law_scales_are_picked_by_hand(view: ControlsView, picked: Option<PanelZoom>)
    ensures
        view.picked(picked, true).zoom == picked,
        view.picked(picked, false).zoom == view.zoom,
        view.picked(picked, true).options == view.options,
{
}

/// What is said of the controls is said of what it holds.
pub proof fn law_controls_is_seen_as_it_is(value: Controls)
    ensures
        value@.options == value.options,
        value@.zoom == value.zoom,
        value@.draft == value.draft,
        value@.error == opt_text(value.error),
{
}

} // verus!
