//! A text box with a cursor.

use vstd::prelude::*;
use vstd::string::StrSliceExecFns;

use crate::text::{byte_count, join, skip_chars, take_chars, width};

#[allow(unused_imports)]
use crate::text::{byte_len, lemma_byte_len_take_next, starts_at};

verus! {

/// Where the cursor stands, in bytes and in characters from the start of the text.
#[derive(Clone, Copy, PartialEq, Eq, Structural, Debug)]
pub struct Cursor {
    pub idx: usize,
    pub col: usize,
}

/// A text box.
#[derive(Debug)]
pub struct Input {
    pub data: String,
    pub cursor: Cursor,
}

/// A text and the number of characters before its cursor. They fix the number of bytes before the
/// cursor of a well-formed box, which is not told apart here.
#[verifier::ext_equal]
pub struct InputView {
    pub data: Seq<char>,
    pub cursor: nat,
}

impl InputView {
    /// The text before the cursor.
    pub open spec fn before(self) -> Seq<char> {
        self.data.take(self.cursor as int)
    }

    /// The text behind the cursor.
    pub open spec fn after(self) -> Seq<char> {
        self.data.skip(self.cursor as int)
    }

    /// The number of bytes before the cursor.
    pub open spec fn idx(self) -> nat {
        byte_len(self.before())
    }

    /// The cursor `steps` characters further right, or at the end where there are fewer.
    pub open spec fn moved_right(self, steps: nat) -> InputView {
        InputView {
            cursor: if self.cursor + steps <= self.data.len() {
                self.cursor + steps
            } else {
                self.data.len()
            },
            ..self
        }
    }

    /// `text` put in behind the cursor.
    pub open spec fn inserted(self, text: Seq<char>) -> InputView {
        InputView { data: self.before() + text + self.after(), ..self }
    }

    /// `text` put in at the cursor, which stands behind it.
    pub open spec fn completed(self, text: Seq<char>) -> InputView {
        self.inserted(text).moved_right(text.len())
    }

    /// `c` typed at the cursor.
    pub open spec fn typed(self, c: char) -> InputView {
        InputView { data: self.before().push(c) + self.after(), cursor: self.cursor + 1 }
    }

    /// The character before the cursor deleted.
    pub open spec fn erased(self) -> InputView {
        if self.cursor == 0 {
            self
        } else {
            InputView {
                data: self.before().drop_last() + self.after(),
                cursor: (self.cursor - 1) as nat,
            }
        }
    }

    /// The text between character `start` and the cursor replaced, the cursor behind the new
    /// text.
    pub open spec fn replaced_from(self, start: int, text: Seq<char>) -> InputView {
        InputView {
            data: self.data.take(start) + text + self.after(),
            cursor: (start + text.len()) as nat,
        }
    }

    /// The empty box.
    pub open spec fn empty() -> InputView {
        InputView { data: Seq::empty(), cursor: 0 }
    }
}

/// What is put in at the cursor stands right before it, and the rest stays.
pub(crate) proof fn lemma_completed(input: InputView, text: Seq<char>)
    requires
        input.cursor <= input.data.len(),
    ensures
        input.completed(text).before() == input.before() + text,
        input.completed(text).after() == input.after(),
{
    let new = input.completed(text);
    assert(new.before() =~= input.before() + text);
    assert(new.after() =~= input.after());
}

impl View for Input {
    type V = InputView;

    open spec fn view(&self) -> InputView {
        InputView { data: self.data@, cursor: self.cursor.col as nat }
    }
}

impl Input {
    /// The two positions of the cursor agree, inside the text.
    pub open spec fn wf(&self) -> bool {
        starts_at(self.data@, self.cursor.col as int, self.cursor.idx as int)
    }

    /// An empty box.
    pub fn new() -> (r: Input)
        ensures
            r.wf(),
            r@ == InputView::empty(),
    {
        proof {
            assert(Seq::<char>::empty().take(0) =~= Seq::<char>::empty());
        }
        Input { data: String::new(), cursor: Cursor { idx: 0, col: 0 } }
    }

    /// Whether the cursor's two positions agree.
    pub fn is_wf(&self) -> (r: bool)
        ensures
            r == self.wf(),
    {
        if self.cursor.col > self.data.as_str().unicode_len() {
            return false;
        }
        let before = take_chars(self.data.as_str(), self.cursor.col);
        byte_count(before) == self.cursor.idx
    }

    pub fn is_empty(&self) -> (r: bool)
        ensures
            r == (self@.data.len() == 0),
    {
        self.data.as_str().is_empty()
    }

    /// Hands out the text and leaves the box empty.
    pub fn take(&mut self) -> (r: String)
        ensures
            r@ == old(self)@.data,
            final(self)@ == InputView::empty(),
            final(self).wf(),
    {
        let mut data = String::new();
        std::mem::swap(&mut data, &mut self.data);
        self.cursor = Cursor { idx: 0, col: 0 };
        proof {
            assert(Seq::<char>::empty().take(0) =~= Seq::<char>::empty());
        }
        data
    }

    /// Moves the cursor over one character, if there is one.
    pub fn on_right(&mut self)
        requires
            old(self).wf(),
        ensures
            final(self).wf(),
            final(self)@ == old(self)@.moved_right(1),
            final(self).data == old(self).data,
    {
        let n: usize = self.data.as_str().unicode_len();
        if self.cursor.col < n {
            let col: usize = self.cursor.col + 1;
            let idx: usize = byte_count(take_chars(self.data.as_str(), col));
            self.cursor = Cursor { idx, col };
        }
    }

    /// Moves the cursor over `steps` characters, or to the end where there are fewer.
    pub fn move_right(&mut self, steps: usize)
        requires
            old(self).wf(),
        ensures
            final(self).wf(),
            final(self)@ == old(self)@.moved_right(steps as nat),
            final(self).data == old(self).data,
    {
        let mut i: usize = 0;
        while i < steps
            invariant
                i <= steps,
                self.wf(),
                self@ == old(self)@.moved_right(i as nat),
                self.data == old(self).data,
                old(self).wf(),
            decreases steps - i,
        {
            self.on_right();
            i = i + 1;
        }
    }

    /// Puts `text` in behind the cursor, which stays.
    pub fn insert_str(&mut self, text: &str)
        requires
            old(self).wf(),
        ensures
            final(self).wf(),
            final(self)@ == old(self)@.inserted(text@),
    {
        let data = join(
            take_chars(self.data.as_str(), self.cursor.col),
            text,
            skip_chars(self.data.as_str(), self.cursor.col),
        );
        proof {
            assert(data@.take(self.cursor.col as int) =~= self.data@.take(self.cursor.col as int));
        }
        self.data = data;
    }

    /// Puts `text` in at the cursor and moves the cursor behind it.
    pub fn complete(&mut self, text: &str)
        requires
            old(self).wf(),
        ensures
            final(self).wf(),
            final(self)@ == old(self)@.completed(text@),
    {
        self.insert_str(text);
        self.move_right(text.unicode_len());
    }

    /// Types `c` at the cursor.
    pub fn put_char(&mut self, c: char)
        requires
            old(self).wf(),
        ensures
            final(self).wf(),
            final(self)@ == old(self)@.typed(c),
    {
        let mut before = take_chars(self.data.as_str(), self.cursor.col).to_owned();
        before.push(c);
        let data = join(before.as_str(), skip_chars(self.data.as_str(), self.cursor.col), "");
        let cursor = Cursor {
            idx: byte_count(before.as_str()),
            col: before.as_str().unicode_len(),
        };
        proof {
            reveal_strlit("");
            assert(data@ =~= old(self)@.typed(c).data);
            assert(data@.take(cursor.col as int) =~= before@);
        }
        self.data = data;
        self.cursor = cursor;
    }

    /// Deletes the character before the cursor, if there is one.
    pub fn on_backspace(&mut self)
        requires
            old(self).wf(),
        ensures
            final(self).wf(),
            final(self)@ == old(self)@.erased(),
    {
        if self.cursor.col > 0 {
            let c = self.data.as_str().get_char(self.cursor.col - 1);
            let data = join(
                take_chars(self.data.as_str(), self.cursor.col - 1),
                skip_chars(self.data.as_str(), self.cursor.col),
                "",
            );
            proof {
                reveal_strlit("");
                assert(self@.before().drop_last() =~= self.data@.take(self.cursor.col - 1));
                assert(data@ =~= old(self)@.erased().data);
                assert(data@.take(self.cursor.col - 1) =~= self.data@.take(self.cursor.col - 1));
                lemma_byte_len_take_next(self.data@, self.cursor.col - 1);
            }
            self.data = data;
            self.cursor = Cursor { idx: self.cursor.idx - width(c), col: self.cursor.col - 1 };
        }
    }

    /// Replaces the text between character `start` and the cursor by `text` and moves the cursor
    /// behind it.
    pub fn replace_from(&mut self, start: usize, text: &str)
        requires
            old(self).wf(),
            start <= old(self).cursor.col,
        ensures
            final(self).wf(),
            final(self)@ == old(self)@.replaced_from(start as int, text@),
    {
        let data = join(
            take_chars(self.data.as_str(), start),
            text,
            skip_chars(self.data.as_str(), self.cursor.col),
        );
        let idx: usize = byte_count(take_chars(self.data.as_str(), start));
        proof {
            assert(data@.take(start as int) =~= self.data@.take(start as int));
        }
        self.data = data;
        self.cursor = Cursor { idx, col: start };
        self.move_right(text.unicode_len());
    }
}

} // verus!
