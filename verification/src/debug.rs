use vstd::prelude::*;
use vstd::string::*;

verus! {

/// The debug overlay: which windows are shown, and the frame counter.
#[derive(Debug, Clone, Copy, PartialEq, Eq, Structural)]
pub struct DebugState {
    pub ui_visible: bool,
    pub spawner_visible: bool,
    pub entities_visible: bool,
    pub render_visible: bool,
    pub fps: u32,
    pub fps_second: u32,
    pub fps_count: u32,
}

impl Default for DebugState {
    fn default() -> (s: DebugState)
        ensures
            s == (DebugState {
                ui_visible: false,
                spawner_visible: false,
                entities_visible: false,
                render_visible: false,
                fps: 0,
                fps_second: 0,
                fps_count: 0,
            }),
    {
        DebugState {
            ui_visible: false,
            spawner_visible: false,
            entities_visible: false,
            render_visible: false,
            fps: 0,
            fps_second: 0,
            fps_count: 0,
        }
    }
}

impl DebugState {
    /// Shows or hides the overlay when its key chord (the grave accent with
    /// left control held) was pressed this frame.
    pub fn toggle_ui(&mut self, pressed: bool)
        ensures
            *final(self) == (DebugState { ui_visible: old(self).ui_visible != pressed, ..*old(self) }),
    {
        if pressed {
            self.ui_visible = !self.ui_visible;
        }
    }

    /// Counts a frame drawn at second `seconds_since_startup`: when a new
    /// second begins, the frames of the previous one become the shown rate
    /// and the count starts over.
    pub fn count_frame(&mut self, seconds_since_startup: u32)
        requires
            old(self).fps_second == seconds_since_startup ==> old(self).fps_count < u32::MAX,
        ensures
            old(self).fps_second != seconds_since_startup ==> {
                &&& final(self).fps == old(self).fps_count
                &&& final(self).fps_count == 1
            },
            old(self).fps_second == seconds_since_startup ==> {
                &&& final(self).fps == old(self).fps
                &&& final(self).fps_count == old(self).fps_count + 1
            },
            final(self).fps_second == seconds_since_startup,
            final(self).ui_visible == old(self).ui_visible,
            final(self).spawner_visible == old(self).spawner_visible,
            final(self).entities_visible == old(self).entities_visible,
            final(self).render_visible == old(self).render_visible,
    {
        if self.fps_second != seconds_since_startup {
            self.fps = self.fps_count;
            self.fps_second = seconds_since_startup;
            self.fps_count = 0;
        }
        self.fps_count = self.fps_count + 1;
    }
}

/// The label of a button that toggles a window: in brackets while the
/// window is shown, padded with spaces otherwise.
pub fn toggle_button_label(state: bool, label: &str) -> (s: String)
    ensures
        s@ == if state {
            seq!['['] + label@ + seq![']']
        } else {
            seq![' '] + label@ + seq![' ']
        },
{
    proof {
        reveal_strlit("[");
        reveal_strlit("]");
        reveal_strlit(" ");
    }
    let mut s: String = if state {
        "[".to_owned()
    } else {
        " ".to_owned()
    };
    s.append(label);
    if state {
        s.append("]");
    } else {
        s.append(" ");
    }
    s
}

/// The label of a check box: `[x]` or `[ ]`, a space, then the label.
pub fn checkbox_label(state: bool, label: &str) -> (s: String)
    ensures
        s@ == if state {
            seq!['[', 'x', ']', ' '] + label@
        } else {
            seq!['[', ' ', ']', ' '] + label@
        },
{
    proof {
        reveal_strlit("[x] ");
        reveal_strlit("[ ] ");
    }
    let mut s: String = if state {
        "[x] ".to_owned()
    } else {
        "[ ] ".to_owned()
    };
    s.append(label);
    s
}

} // verus!
