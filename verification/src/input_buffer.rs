//! The transient single-line input buffer used while composing a new todo
//! title in `Editing` mode: a line of text, a cursor position inside it,
//! and a horizontal scroll computed for the renderer.

use vstd::prelude::*;
use crate::mode::Key;
use crate::strutil::chars_to_string;

verus! {

/// The mathematical value of an input buffer: its text and the cursor
/// position inside it.
pub struct BufferView {
    pub text: Seq<char>,
    pub cursor: int,
}

/// A buffer is well formed when the cursor lies inside `[0, text.len()]`.
pub open spec fn buffer_wf(b: BufferView) -> bool {
    0 <= b.cursor <= b.text.len()
}

/// How one key press edits a buffer: printable characters are inserted at
/// the cursor, `Backspace`/`Delete` remove around it, `Left`/`Right`/
/// `Home`/`End` move it, and every other key leaves the buffer unchanged.
pub open spec fn spec_apply_key(b: BufferView, key: Key) -> BufferView {
    match key {
        Key::Char(c) => BufferView { text: b.text.insert(b.cursor, c), cursor: b.cursor + 1 },
        Key::Backspace => if b.cursor > 0 {
            BufferView { text: b.text.remove(b.cursor - 1), cursor: b.cursor - 1 }
        } else {
            b
        },
        Key::Delete => if b.cursor < b.text.len() {
            BufferView { text: b.text.remove(b.cursor), cursor: b.cursor }
        } else {
            b
        },
        Key::Left => if b.cursor > 0 {
            BufferView { text: b.text, cursor: b.cursor - 1 }
        } else {
            b
        },
        Key::Right => if b.cursor < b.text.len() {
            BufferView { text: b.text, cursor: b.cursor + 1 }
        } else {
            b
        },
        Key::Home => BufferView { text: b.text, cursor: 0 },
        Key::End => BufferView { text: b.text, cursor: b.text.len() as int },
        Key::Enter | Key::Esc | Key::Other => b,
    }
}

/// Editing keeps the buffer well formed.
pub proof fn lemma_apply_key_wf(b: BufferView, key: Key)
    requires
        buffer_wf(b),
    ensures
        buffer_wf(spec_apply_key(b, key)),
{
}

/// The transient single-line text buffer, live while in `Editing` mode.
pub struct InputBuffer {
    chars: Vec<char>,
    cursor: usize,
}

impl View for InputBuffer {
    type V = BufferView;

    closed spec fn view(&self) -> BufferView {
        BufferView { text: self.chars@, cursor: self.cursor as int }
    }
}

impl InputBuffer {
    /// An empty buffer with the cursor at the start.
    pub fn new() -> (r: Self)
        ensures
            r@.text == Seq::<char>::empty(),
            r@.cursor == 0,
    {
        InputBuffer { chars: Vec::new(), cursor: 0 }
    }

    /// Applies one key press to the buffer.
    pub fn apply_key(&mut self, key: Key)
        requires
            buffer_wf(old(self)@),
        ensures
            final(self)@ == spec_apply_key(old(self)@, key),
            buffer_wf(final(self)@),
    {
        match key {
            Key::Char(c) => {
                self.chars.insert(self.cursor, c);
                // the new length bounds the cursor away from overflow
                let _n: usize = self.chars.len();
                self.cursor = self.cursor + 1;
            },
            Key::Backspace => {
                if self.cursor > 0 {
                    self.cursor = self.cursor - 1;
                    self.chars.remove(self.cursor);
                }
            },
            Key::Delete => {
                if self.cursor < self.chars.len() {
                    self.chars.remove(self.cursor);
                }
            },
            Key::Left => {
                if self.cursor > 0 {
                    self.cursor = self.cursor - 1;
                }
            },
            Key::Right => {
                if self.cursor < self.chars.len() {
                    self.cursor = self.cursor + 1;
                }
            },
            Key::Home => {
                self.cursor = 0;
            },
            Key::End => {
                self.cursor = self.chars.len();
            },
            Key::Enter | Key::Esc | Key::Other => {},
        }
    }

    /// The buffer's text as an owned string.
    pub fn value(&self) -> (r: String)
        ensures
            r@ == self@.text,
    {
        chars_to_string(&self.chars)
    }

    /// The cursor position, in characters from the start of the text.
    pub fn cursor(&self) -> (r: usize)
        ensures
            r == self@.cursor,
    {
        self.cursor
    }

    /// Empties the buffer and puts the cursor back at the start.
    pub fn reset(&mut self)
        ensures
            final(self)@.text == Seq::<char>::empty(),
            final(self)@.cursor == 0,
    {
        self.chars = Vec::new();
        self.cursor = 0;
    }

    /// The horizontal scroll for a visible width: the least offset that
    /// keeps the cursor column inside the visible region.
    pub fn visual_scroll(&self, width: usize) -> (r: usize)
        ensures
            r == if self@.cursor > width { self@.cursor - width } else { 0int },
            self@.cursor - r <= width,
    {
        if self.cursor > width {
            self.cursor - width
        } else {
            0
        }
    }
}

} // verus!
