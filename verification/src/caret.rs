//! The scanner's cursor over the source text: the index where the current
//! lexeme starts, the index of the next unread character, and the current
//! 1-based line number.

use vstd::prelude::*;

verus! {

pub struct Caret<'a> {
    pub source: &'a str,
    pub start_car: usize,
    pub current_char: usize,
    pub current_line: usize,
}

impl<'a> Caret<'a> {
    /// The characters of the source text the caret reads.
    pub open spec fn src(&self) -> Seq<char> {
        self.source@
    }

    /// The caret never leaves the source text, and the line count can
    /// only have grown by the characters already read.
    pub open spec fn wf(&self) -> bool {
        &&& self.current_char <= self.src().len()
        &&& 1 <= self.current_line
        &&& self.current_line <= self.current_char + 1
    }

    pub fn new(source: &'a str) -> (r: Self)
        ensures
            r.src() == source@,
            r.start_car == 0,
            r.current_char == 0,
            r.current_line == 1,
            r.wf(),
    {
        Caret { source, start_car: 0, current_char: 0, current_line: 1 }
    }

    pub fn is_at_end_of_input(&self) -> (r: bool)
        ensures
            r == (self.current_char >= self.src().len()),
    {
        self.current_char >= self.source.unicode_len()
    }

    /// The next unread character, or the null character at the end of the
    /// input.
    pub open spec fn spec_peek(&self) -> char {
        if self.current_char < self.src().len() {
            self.src()[self.current_char as int]
        } else {
            '\0'
        }
    }

    pub fn peek(&self) -> (r: char)
        ensures
            r == self.spec_peek(),
    {
        if self.is_at_end_of_input() {
            '\0'
        } else {
            self.source.get_char(self.current_char)
        }
    }

    /// The character after the next unread one, or the null character
    /// when there is none.
    pub open spec fn spec_peek_next(&self) -> char {
        if self.current_char + 1 < self.src().len() {
            self.src()[self.current_char + 1]
        } else {
            '\0'
        }
    }

    pub fn peek_next(&self) -> (r: char)
        ensures
            r == self.spec_peek_next(),
    {
        let n = self.source.unicode_len();
        if self.current_char >= n || self.current_char == n - 1 {
            '\0'
        } else {
            self.source.get_char(self.current_char + 1)
        }
    }

    /// Reads one character and moves past it.
    pub fn advance(&mut self) -> (r: char)
        requires
            old(self).current_char < old(self).src().len(),
        ensures
            final(self).src() == old(self).src(),
            final(self).start_car == old(self).start_car,
            final(self).current_line == old(self).current_line,
            final(self).current_char == old(self).current_char + 1,
            r == old(self).src()[old(self).current_char as int],
    {
        let n = self.source.unicode_len();
        let value = self.source.get_char(self.current_char);
        proof {
            assert(self.current_char < n);
        }
        self.current_char += 1;
        value
    }

    /// Moves past the next character exactly when it is the expected one.
    pub fn match_char(&mut self, expected: char) -> (r: bool)
        requires
            old(self).current_char <= old(self).src().len(),
        ensures
            final(self).src() == old(self).src(),
            final(self).start_car == old(self).start_car,
            final(self).current_line == old(self).current_line,
            r == (old(self).current_char < old(self).src().len() && old(self).spec_peek()
                == expected),
            r ==> final(self).current_char == old(self).current_char + 1,
            !r ==> final(self).current_char == old(self).current_char,
    {
        let n = self.source.unicode_len();
        if self.current_char >= n {
            return false;
        }
        let value = self.source.get_char(self.current_char);
        if value == expected {
            self.current_char += 1;
            true
        } else {
            false
        }
    }
}

} // verus!
