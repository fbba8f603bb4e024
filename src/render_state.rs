//! Text sizes measured by the host, handed out in the order strings are pushed.
use crate::commands::Vec2f;
use vstd::prelude::*;

verus! {

/// The host measures each string of a frame and reports the sizes back in
/// order; the next frame's emitters read them through a cursor.
pub struct RenderState {
    pub offset: usize,
    pub text_sizes: Vec<Vec2f>,
}

impl RenderState {
    pub fn default() -> (r: RenderState)
        ensures
            r.offset == 0,
            r.text_sizes@.len() == 0,
    {
        RenderState { offset: 0, text_sizes: Vec::new() }
    }

    /// The size under the cursor, or zero when no size was reported for it;
    /// the cursor moves on by one.
    pub fn next_text_size(&mut self) -> (r: Vec2f)
        ensures
            final(self).text_sizes@ == old(self).text_sizes@,
            final(self).offset == (if old(self).offset < usize::MAX {
                old(self).offset + 1
            } else {
                old(self).offset as int
            }),
            r == (if old(self).offset < old(self).text_sizes@.len() {
                old(self).text_sizes@[old(self).offset as int]
            } else {
                Vec2f::spec_zero()
            }),
    {
        let current = self.offset;
        if self.offset < usize::MAX {
            self.offset = self.offset + 1;
        }
        if current < self.text_sizes.len() {
            self.text_sizes[current]
        } else {
            Vec2f::zero()
        }
    }

    /// Moves the cursor back to the first size.
    pub fn bump_cursor(&mut self)
        ensures
            final(self).offset == 0,
            final(self).text_sizes@ == old(self).text_sizes@,
    {
        self.offset = 0;
    }

    pub fn clear(&mut self)
        ensures
            final(self).offset == 0,
            final(self).text_sizes@.len() == 0,
    {
        self.text_sizes.clear();
        self.offset = 0;
    }

    pub fn push(&mut self, size: Vec2f)
        ensures
            final(self).offset == old(self).offset,
            final(self).text_sizes@ == old(self).text_sizes@.push(size),
    {
        self.text_sizes.push(size);
    }
}

} // verus!
