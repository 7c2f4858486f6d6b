//! The state machine of the terminal spinner: a frame counter that cycles
//! through a fixed set of glyphs. Drawing, timing and cancellation live with
//! the caller; this module only decides which glyph comes next.

use vstd::prelude::*;

verus! {

/// How many frames one full cycle has: twelve clock-face glyphs when the
/// terminal renders them, else four ASCII glyphs.
pub open spec fn frame_count(emoji: bool) -> int {
    if emoji {
        12
    } else {
        4
    }
}

/// The glyph shown for a frame index: the clock faces from twelve o'clock
/// around the dial, or the four-character ASCII cycle `/ - \ |`.
pub open spec fn frame_glyph(emoji: bool, i: int) -> char {
    if emoji {
        if i == 0 {
            '\u{1F55B}'
        } else if i == 1 {
            '\u{1F550}'
        } else if i == 2 {
            '\u{1F551}'
        } else if i == 3 {
            '\u{1F552}'
        } else if i == 4 {
            '\u{1F553}'
        } else if i == 5 {
            '\u{1F554}'
        } else if i == 6 {
            '\u{1F555}'
        } else if i == 7 {
            '\u{1F556}'
        } else if i == 8 {
            '\u{1F557}'
        } else if i == 9 {
            '\u{1F558}'
        } else if i == 10 {
            '\u{1F559}'
        } else {
            '\u{1F55A}'
        }
    } else {
        if i == 0 {
            '/'
        } else if i == 1 {
            '-'
        } else if i == 2 {
            '\\'
        } else {
            '|'
        }
    }
}

/// The spinner's whole state: whether it draws at all, which glyph set it
/// cycles through, and the current frame.
#[derive(Debug, Clone, Copy, PartialEq, Eq, Structural)]
pub struct Spinner {
    pub pipable: bool,
    pub emoji: bool,
    pub frame: usize,
}

impl Spinner {
    /// The frame index stays under the cycle length.
    pub open spec fn wf(&self) -> bool {
        self.frame < frame_count(self.emoji)
    }

    /// A fresh spinner at the first frame.
    pub fn new(pipable: bool, emoji: bool) -> (s: Spinner)
        ensures
            s.wf(),
            s.pipable == pipable,
            s.emoji == emoji,
            s.frame == 0,
    {
        Spinner { pipable, emoji, frame: 0 }
    }

    /// In pipable mode the spinner writes nothing at all.
    pub fn draws(&self) -> (d: bool)
        ensures
            d == !self.pipable,
    {
        !self.pipable
    }

    /// Steps to the next frame, wrapping at the end of the cycle.
    pub fn advance(&mut self)
        requires
            old(self).wf(),
        ensures
            final(self).wf(),
            final(self).pipable == old(self).pipable,
            final(self).emoji == old(self).emoji,
            final(self).frame == (old(self).frame + 1) % frame_count(old(self).emoji),
    {
        let count: usize = if self.emoji {
            12
        } else {
            4
        };
        self.frame = (self.frame + 1) % count;
    }

    /// The glyph of the current frame.
    pub fn glyph(&self) -> (c: char)
        requires
            self.wf(),
        ensures
            c == frame_glyph(self.emoji, self.frame as int),
    {
        if self.emoji {
            match self.frame {
                0 => '\u{1F55B}',
                1 => '\u{1F550}',
                2 => '\u{1F551}',
                3 => '\u{1F552}',
                4 => '\u{1F553}',
                5 => '\u{1F554}',
                6 => '\u{1F555}',
                7 => '\u{1F556}',
                8 => '\u{1F557}',
                9 => '\u{1F558}',
                10 => '\u{1F559}',
                _ => '\u{1F55A}',
            }
        } else {
            match self.frame {
                0 => '/',
                1 => '-',
                2 => '\\',
                _ => '|',
            }
        }
    }
}

} // verus!
