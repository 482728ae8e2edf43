//! Keys, and a line of text that is typed with them.

use vstd::prelude::*;

use crate::text::{chars_of, string_of};

verus! {

/// A key.
#[derive(Clone, Copy, Debug, PartialEq, Eq, Structural)]
pub enum KeyCode {
    Char(char),
    Enter,
    Esc,
    Up,
    Down,
    Left,
    Right,
    Home,
    End,
    Backspace,
    Delete,
    Other,
}

/// A key that is pressed, alone or with others.
#[derive(Clone, Copy, Debug, PartialEq, Eq, Structural)]
pub struct KeyPress {
    pub code: KeyCode,
    pub shift: bool,
    pub control: bool,
}

/// A line of text with a cursor in front of one of its characters or behind the last.
#[derive(Debug)]
pub struct LineInput {
    pub chars: Vec<char>,
    pub cursor: usize,
}

/// A line of text with a cursor, as mathematical values.
#[verifier::ext_equal]
pub struct LineModel {
    pub text: Seq<char>,
    pub cursor: int,
}

impl View for LineInput {
    type V = LineModel;

    open spec fn view(&self) -> LineModel {
        LineModel { text: self.chars@, cursor: self.cursor as int }
    }
}

/// A line that holds a text, with the cursor behind it.
pub open spec fn line_of(text: Seq<char>) -> LineModel {
    LineModel { text, cursor: text.len() as int }
}

impl LineModel {
    /// The cursor stands in the text or behind it.
    pub open spec fn wf(self) -> bool {
        0 <= self.cursor <= self.text.len()
    }

    /// The line with a character put in at the cursor, and the cursor behind it.
    pub open spec fn inserted(self, c: char) -> LineModel {
        LineModel { text: self.text.insert(self.cursor, c), cursor: self.cursor + 1 }
    }

    /// The line without the character in front of the cursor.
    pub open spec fn erased_before(self) -> LineModel {
        if self.cursor == 0 {
            self
        } else {
            LineModel { text: self.text.remove(self.cursor - 1), cursor: self.cursor - 1 }
        }
    }

    /// The line without the character behind the cursor.
    pub open spec fn erased_at(self) -> LineModel {
        if self.cursor < self.text.len() {
            LineModel { text: self.text.remove(self.cursor), ..self }
        } else {
            self
        }
    }

    pub open spec fn moved_left(self) -> LineModel {
        if self.cursor == 0 {
            self
        } else {
            LineModel { cursor: self.cursor - 1, ..self }
        }
    }

    pub open spec fn moved_right(self) -> LineModel {
        if self.cursor < self.text.len() {
            LineModel { cursor: self.cursor + 1, ..self }
        } else {
            self
        }
    }

    pub open spec fn moved_home(self) -> LineModel {
        LineModel { cursor: 0, ..self }
    }

    pub open spec fn moved_end(self) -> LineModel {
        line_of(self.text)
    }

    /// What a key that erases a character or moves the cursor does to the line.
    pub open spec fn edited(self, code: KeyCode) -> LineModel {
        match code {
            KeyCode::Backspace => self.erased_before(),
            KeyCode::Delete => self.erased_at(),
            KeyCode::Left => self.moved_left(),
            KeyCode::Right => self.moved_right(),
            KeyCode::Home => self.moved_home(),
            KeyCode::End => self.moved_end(),
            _ => self,
        }
    }
}

/// However a line is edited, its cursor stays in it.
pub proof fn edits_keep_the_cursor_in_the_line(line: LineModel, code: KeyCode, c: char)
    requires
        line.wf(),
    ensures
        line.edited(code).wf(),
        line.inserted(c).wf(),
{
}

/// To type a character and erase it again leaves the line as it was.
pub proof fn erasing_undoes_typing(line: LineModel, c: char)
    requires
        line.wf(),
    ensures
        line.inserted(c).erased_before() == line,
        line.inserted(c).moved_left().erased_at() == line,
{
    assert(line.text.insert(line.cursor, c).remove(line.cursor) == line.text);
}

impl LineInput {
    /// The cursor stands in the text or behind it.
    pub open spec fn wf(&self) -> bool {
        self@.wf()
    }

    /// A line without text.
    pub fn new() -> (res: LineInput)
        ensures
            res@ == line_of(Seq::empty()),
            res.wf(),
    {
        LineInput { chars: Vec::new(), cursor: 0 }
    }

    /// A line that holds a text, with the cursor behind it.
    pub fn from_text(text: &str) -> (res: LineInput)
        ensures
            res@ == line_of(text@),
            res.wf(),
    {
        let chars = chars_of(text);
        let cursor: usize = chars.len();
        LineInput { chars, cursor }
    }

    /// The text of the line.
    pub fn text(&self) -> (res: String)
        ensures
            res@ == self@.text,
    {
        string_of(&self.chars)
    }

    /// Puts a character in at the cursor.
    pub fn insert(&mut self, c: char)
        requires
            old(self).wf(),
        ensures
            final(self)@ == old(self)@.inserted(c),
            final(self).wf(),
    {
        let at: usize = self.cursor;
        self.chars.insert(at, c);
        assert(self.chars.len() == old(self).chars@.len() + 1);
        self.cursor = at + 1;
    }

    /// What a key that erases a character or moves the cursor does.
    pub fn edit(&mut self, code: KeyCode)
        requires
            old(self).wf(),
        ensures
            final(self)@ == old(self)@.edited(code),
            final(self).wf(),
    {
        let at: usize = self.cursor;
        match code {
            KeyCode::Backspace => {
                if at > 0 {
                    let _erased = self.chars.remove(at - 1);
                    self.cursor = at - 1;
                }
            },
            KeyCode::Delete => {
                if at < self.chars.len() {
                    let _erased = self.chars.remove(at);
                }
            },
            KeyCode::Left => {
                if at > 0 {
                    self.cursor = at - 1;
                }
            },
            KeyCode::Right => {
                if at < self.chars.len() {
                    self.cursor = at + 1;
                }
            },
            KeyCode::Home => {
                self.cursor = 0;
            },
            KeyCode::End => {
                self.cursor = self.chars.len();
            },
            _ => {},
        }
    }

    /// Moves the cursor behind the text.
    pub fn move_end(&mut self)
        requires
            old(self).wf(),
        ensures
            final(self)@ == old(self)@.moved_end(),
            final(self).wf(),
    {
        self.cursor = self.chars.len();
    }
}

} // verus!
