//! World state that the request commands and the frame hooks touch.
use crate::commands::Vec2f;
use vstd::prelude::*;

verus! {

#[derive(Debug, Clone, Copy, PartialEq, Eq, Structural, Default)]
pub struct ViewPortSize {
    pub width: i32,
    pub height: i32,
}

/// Marks entities that live for one frame only.
#[derive(Debug, Clone, Copy, PartialEq, Eq, Structural)]
pub struct Actions;

/// The phase of a touch gesture: `Idle -> Start -> Move* -> End -> Idle`.
#[derive(Debug, Clone, Copy, PartialEq, Eq, Structural)]
pub enum Touch {
    Idle,
    Start,
    Move,
    End,
}

impl Touch {
    /// A gesture is under way.
    pub open spec fn is_active(self) -> bool {
        self is Start || self is Move
    }
}

#[derive(Debug, Clone, Copy, PartialEq, Eq, Structural)]
pub struct TouchState {
    pub last_touch: Touch,
    pub touch: Touch,
    /// The last pointer position seen, used for hit-testing.
    pub pos: Vec2f,
    pub touch_start: Vec2f,
    pub touch_current: Vec2f,
}

impl TouchState {
    pub open spec fn spec_new() -> TouchState {
        TouchState {
            last_touch: Touch::Idle,
            touch: Touch::Idle,
            pos: Vec2f::spec_zero(),
            touch_start: Vec2f::spec_zero(),
            touch_current: Vec2f::spec_zero(),
        }
    }

    pub fn new() -> (r: TouchState)
        ensures
            r == TouchState::spec_new(),
    {
        TouchState {
            last_touch: Touch::Idle,
            touch: Touch::Idle,
            pos: Vec2f::zero(),
            touch_start: Vec2f::zero(),
            touch_current: Vec2f::zero(),
        }
    }

    /// A gesture starts at `p`.
    pub open spec fn spec_touch_start(self, p: Vec2f) -> TouchState {
        TouchState { touch: Touch::Start, touch_start: p, touch_current: p, ..self }
    }

    /// The pointer moves to `p`; within a gesture the gesture follows it,
    /// outside one only the hover position changes.
    pub open spec fn spec_touch_move(self, p: Vec2f) -> TouchState {
        if self.touch.is_active() {
            TouchState { pos: p, touch: Touch::Move, touch_current: p, ..self }
        } else {
            TouchState { pos: p, ..self }
        }
    }

    /// The gesture ends at `p`; outside a gesture nothing changes.
    pub open spec fn spec_touch_end(self, p: Vec2f) -> TouchState {
        if self.touch.is_active() {
            TouchState { touch: Touch::End, touch_current: p, ..self }
        } else {
            self
        }
    }

    pub fn on_touch_start(&mut self, p: Vec2f)
        ensures
            *final(self) == old(self).spec_touch_start(p),
    {
        self.touch = Touch::Start;
        self.touch_start = p;
        self.touch_current = p;
    }

    pub fn on_touch_move(&mut self, p: Vec2f)
        ensures
            *final(self) == old(self).spec_touch_move(p),
    {
        self.pos = p;
        if self.touch == Touch::Start || self.touch == Touch::Move {
            self.touch = Touch::Move;
            self.touch_current = p;
        }
    }

    pub fn on_touch_end(&mut self, p: Vec2f)
        ensures
            *final(self) == old(self).spec_touch_end(p),
    {
        if self.touch == Touch::Start || self.touch == Touch::Move {
            self.touch = Touch::End;
            self.touch_current = p;
        }
    }
}

impl Default for TouchState {
    fn default() -> (r: TouchState)
        ensures
            r == TouchState::spec_new(),
    {
        TouchState::new()
    }
}

#[derive(Debug, Clone, Copy, PartialEq, Eq, Structural, Default)]
pub struct LayersState {
    /// Some UI element is under the pointer this frame.
    pub ui_layer_is_hot: bool,
}

impl LayersState {
    pub fn reset(&mut self)
        ensures
            !final(self).ui_layer_is_hot,
    {
        self.ui_layer_is_hot = false;
    }
}

} // verus!
