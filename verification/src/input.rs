use vstd::prelude::*;

verus! {

/// Which gamepad buttons are held in one frame.
#[derive(Clone, Copy, PartialEq, Eq, Structural, Debug)]
pub struct ButtonSnapshot {
    pub south: bool,
    pub east: bool,
    pub west: bool,
    pub north: bool,
    pub start: bool,
    pub select: bool,
    pub dpad_up: bool,
    pub dpad_down: bool,
}

/// The snapshot with no button held.
pub open spec fn released() -> ButtonSnapshot {
    ButtonSnapshot {
        south: false,
        east: false,
        west: false,
        north: false,
        start: false,
        select: false,
        dpad_up: false,
        dpad_down: false,
    }
}

impl Default for ButtonSnapshot {
    /// No button held.
    fn default() -> (s: ButtonSnapshot)
        ensures
            s == released(),
    {
        ButtonSnapshot {
            south: false,
            east: false,
            west: false,
            north: false,
            start: false,
            select: false,
            dpad_up: false,
            dpad_down: false,
        }
    }
}

/// A change in the set of connected gamepads, identified by number.
#[derive(Clone, Copy, PartialEq, Eq, Structural, Debug)]
pub enum PadEvent {
    Connected(usize),
    Disconnected(usize),
    Other,
}

/// The gamepad in use and its buttons in this frame and the previous one.
pub struct ControllerInput {
    pub active_id: Option<usize>,
    pub previous: ButtonSnapshot,
    pub current: ButtonSnapshot,
}

/// Whether a button went down in this frame: held now, not before.
pub open spec fn spec_just_pressed(current: bool, previous: bool) -> bool {
    current && !previous
}

impl ControllerInput {
    /// No gamepad in use and no button held.
    pub fn new() -> (c: ControllerInput)
        ensures
            c.active_id is None,
            c.previous == released(),
            c.current == released(),
    {
        ControllerInput {
            active_id: None,
            previous: ButtonSnapshot::default(),
            current: ButtonSnapshot::default(),
        }
    }

    /// Follows the gamepad in use: a newly connected pad becomes the one in
    /// use, and the one in use stops being so when it disconnects.
    pub fn track_event(&mut self, event: PadEvent)
        ensures
            final(self).active_id == match event {
                PadEvent::Connected(id) => Some(id),
                PadEvent::Disconnected(id) => if old(self).active_id == Some(id) {
                    None
                } else {
                    old(self).active_id
                },
                PadEvent::Other => old(self).active_id,
            },
            final(self).previous == old(self).previous,
            final(self).current == old(self).current,
    {
        match event {
            PadEvent::Connected(id) => {
                self.active_id = Some(id);
            },
            PadEvent::Disconnected(id) => {
                if self.active_id == Some(id) {
                    self.active_id = None;
                }
            },
            PadEvent::Other => {},
        }
    }

    /// When no gamepad is in use, takes `first` (the first connected pad,
    /// if any).
    pub fn adopt_first(&mut self, first: Option<usize>)
        ensures
            final(self).active_id == (if old(self).active_id is None {
                first
            } else {
                old(self).active_id
            }),
            final(self).previous == old(self).previous,
            final(self).current == old(self).current,
    {
        if self.active_id.is_none() {
            self.active_id = first;
        }
    }

    /// Starts a new frame with the buttons held in `sample` (all released
    /// when there is no gamepad): the current buttons become the previous
    /// ones.
    pub fn update(&mut self, sample: ButtonSnapshot)
        ensures
            final(self).active_id == old(self).active_id,
            final(self).previous == old(self).current,
            final(self).current == sample,
    {
        self.previous = self.current;
        self.current = sample;
    }

    /// Whether a button went down in this frame.
    pub fn just_pressed(&self, current: bool, previous: bool) -> (r: bool)
        ensures
            r == spec_just_pressed(current, previous),
    {
        current && !previous
    }

    /// Whether confirm (A or Start) went down in this frame.
    pub fn confirm_pressed(&self) -> (r: bool)
        ensures
            r == spec_just_pressed(
                self.current.south || self.current.start,
                self.previous.south || self.previous.start,
            ),
    {
        self.just_pressed(
            self.current.south || self.current.start,
            self.previous.south || self.previous.start,
        )
    }

    /// Whether back (B or Select) went down in this frame.
    pub fn back_pressed(&self) -> (r: bool)
        ensures
            r == spec_just_pressed(
                self.current.east || self.current.select,
                self.previous.east || self.previous.select,
            ),
    {
        self.just_pressed(
            self.current.east || self.current.select,
            self.previous.east || self.previous.select,
        )
    }

    /// Whether the view button (Y) went down in this frame.
    pub fn toggle_view_pressed(&self) -> (r: bool)
        ensures
            r == spec_just_pressed(self.current.north, self.previous.north),
    {
        self.just_pressed(self.current.north, self.previous.north)
    }

    /// Whether the texture button (X) went down in this frame.
    pub fn toggle_textures_pressed(&self) -> (r: bool)
        ensures
            r == spec_just_pressed(self.current.west, self.previous.west),
    {
        self.just_pressed(self.current.west, self.previous.west)
    }

    /// Whether the music button (Start) went down in this frame.
    pub fn toggle_music_pressed(&self) -> (r: bool)
        ensures
            r == spec_just_pressed(self.current.start, self.previous.start),
    {
        self.just_pressed(self.current.start, self.previous.start)
    }

    /// Whether D-pad up went down in this frame.
    pub fn level_up_pressed(&self) -> (r: bool)
        ensures
            r == spec_just_pressed(self.current.dpad_up, self.previous.dpad_up),
    {
        self.just_pressed(self.current.dpad_up, self.previous.dpad_up)
    }

    /// Whether D-pad down went down in this frame.
    pub fn level_down_pressed(&self) -> (r: bool)
        ensures
            r == spec_just_pressed(self.current.dpad_down, self.previous.dpad_down),
    {
        self.just_pressed(self.current.dpad_down, self.previous.dpad_down)
    }
}

/// A button held over two frames is reported as pressed in the first only:
/// once the previous and current buttons are the same, nothing is
/// reported.
pub proof fn lemma_held_buttons_not_repeated(c: ControllerInput)
    requires
        c.previous == c.current,
    ensures
        !spec_just_pressed(c.current.south || c.current.start, c.previous.south || c.previous.start),
        !spec_just_pressed(c.current.east || c.current.select, c.previous.east || c.previous.select),
        !spec_just_pressed(c.current.north, c.previous.north),
        !spec_just_pressed(c.current.west, c.previous.west),
        !spec_just_pressed(c.current.start, c.previous.start),
        !spec_just_pressed(c.current.dpad_up, c.previous.dpad_up),
        !spec_just_pressed(c.current.dpad_down, c.previous.dpad_down),
{
}

} // verus!
