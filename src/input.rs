//! The line editor: a one-line buffer with a cursor counted in characters and
//! a ticket that every user edit advances, and the ticket-gated completion
//! that rewrites the word before the cursor.

use vstd::prelude::*;
use crate::text::{chars_eq, chars_of, extend_range, parse_usize, parsed_usize, string_of};

verus! {

/// Index of the last path separator in `s`, if any.
pub open spec fn last_sep(s: Seq<char>) -> Option<int>
    decreases s.len(),
{
    if s.len() == 0 {
        None
    } else if s.last() == '/' {
        Some(s.len() - 1)
    } else {
        last_sep(s.drop_last())
    }
}

/// The separator that `last_sep` finds lies in `s`.
pub proof fn lemma_last_sep_in(s: Seq<char>)
    ensures
        match last_sep(s) {
            Some(i) => 0 <= i < s.len() && s[i] == '/',
            None => forall|j: int| 0 <= j < s.len() ==> s[j] != '/',
        },
    decreases s.len(),
{
    if s.len() > 0 && s.last() != '/' {
        lemma_last_sep_in(s.drop_last());
        assert forall|j: int| 0 <= j < s.len() - 1 implies s[j] == s.drop_last()[j] by {}
    }
}

/// `before` with `word` in place of what follows its last separator, or in
/// place of all of it when it has none.
pub open spec fn replace_word(before: Seq<char>, word: Seq<char>) -> Seq<char> {
    match last_sep(before) {
        Some(i) => before.subrange(0, i + 1) + word,
        None => word,
    }
}

/// The editor as a value: buffer, cursor (in characters) and ticket.
pub struct InputState {
    pub value: Seq<char>,
    pub cursor: nat,
    pub ticket: nat,
}

impl InputState {
    /// The text before the cursor.
    pub open spec fn before(self) -> Seq<char> {
        self.value.subrange(0, self.cursor as int)
    }

    /// The text from the cursor on.
    pub open spec fn after(self) -> Seq<char> {
        self.value.subrange(self.cursor as int, self.value.len() as int)
    }

    /// The buffer that completing with `word` proposes.
    pub open spec fn completed(self, word: Seq<char>) -> Seq<char> {
        replace_word(self.before(), word) + self.after()
    }

    /// The state after a completion with `word` under `ticket`.
    pub open spec fn complete_next(self, word: Seq<char>, ticket: nat) -> InputState {
        if ticket != self.ticket || self.completed(word) == self.value {
            self
        } else {
            InputState {
                value: self.completed(word),
                cursor: (self.cursor + self.completed(word).len() - self.value.len()) as nat,
                ticket: self.ticket,
            }
        }
    }
}

/// A completion request: the proposed word and the ticket that was current
/// when it was asked for.
pub struct Opt {
    pub word: String,
    pub ticket: usize,
}

impl Opt {
    /// Builds a request from a command's positional arguments (the first is
    /// the word, none gives the empty word) and its `ticket` argument (a
    /// missing or unreadable one gives 0).
    pub fn from_args(args: &Vec<String>, ticket: Option<&str>) -> (r: Opt)
        ensures
            r.word@ == (if args@.len() > 0 { args@[0]@ } else { Seq::empty() }),
            r.ticket == match ticket {
                Some(t) => match parsed_usize(t@) {
                    Some(n) => n,
                    None => 0,
                },
                None => 0,
            },
    {
        let word = if args.len() > 0 {
            args[0].clone()
        } else {
            String::new()
        };
        let ticket = match ticket {
            Some(t) => match parse_usize(t) {
                Some(n) => n,
                None => 0,
            },
            None => 0,
        };
        Opt { word, ticket }
    }
}

/// Position of the last separator in `v[..end]`.
fn find_last_sep(v: &Vec<char>, end: usize) -> (r: Option<usize>)
    requires
        end <= v@.len(),
    ensures
        match r {
            Some(i) => i < end && last_sep(v@.subrange(0, end as int)) == Some(i as int),
            None => last_sep(v@.subrange(0, end as int)) is None,
        },
{
    let mut i: usize = end;
    while i > 0
        invariant
            i <= end <= v@.len(),
            last_sep(v@.subrange(0, end as int)) == last_sep(v@.subrange(0, i as int)),
        decreases i,
    {
        if v[i - 1] == '/' {
            return Some(i - 1);
        }
        assert(v@.subrange(0, i as int).drop_last() =~= v@.subrange(0, i - 1 as int));
        i = i - 1;
    }
    proof {
        lemma_last_sep_in(v@.subrange(0, end as int));
    }
    None
}

/// The buffer that results from putting `word` in place of the word before
/// `cursor` in `value`.
fn completion_of(value: &Vec<char>, cursor: usize, word: &Vec<char>) -> (r: Vec<char>)
    requires
        cursor <= value@.len(),
    ensures
        r@ == replace_word(value@.subrange(0, cursor as int), word@) + value@.subrange(
            cursor as int,
            value@.len() as int,
        ),
{
    let mut new: Vec<char> = Vec::new();
    match find_last_sep(value, cursor) {
        Some(i) => extend_range(&mut new, value, 0, i + 1),
        None => {},
    }
    let ghost head = new@;
    extend_range(&mut new, word, 0, word.len());
    extend_range(&mut new, value, cursor, value.len());
    proof {
        assert(word@.subrange(0, word@.len() as int) =~= word@);
        let b = value@.subrange(0, cursor as int);
        lemma_last_sep_in(b);
        match last_sep(b) {
            Some(i) => {
                assert(b.subrange(0, i + 1) =~= value@.subrange(0, i + 1));
            },
            None => {
                assert(head =~= Seq::<char>::empty());
            },
        }
    }
    new
}

/// A one-line text buffer with a cursor and an edit ticket.
pub struct Input {
    value: Vec<char>,
    cursor: usize,
    ticket: usize,
}

impl View for Input {
    type V = InputState;

    closed spec fn view(&self) -> InputState {
        InputState { value: self.value@, cursor: self.cursor as nat, ticket: self.ticket as nat }
    }
}

impl Input {
    /// The cursor lies within the buffer.
    pub open spec fn wf(&self) -> bool {
        self@.cursor <= self@.value.len()
    }

    /// An editor holding `value`, with the cursor at its end and ticket 0.
    pub fn new(value: &str) -> (r: Input)
        ensures
            r.wf(),
            r@ == (InputState { value: value@, cursor: value@.len(), ticket: 0 }),
    {
        let value = chars_of(value);
        let cursor = value.len();
        Input { value, cursor, ticket: 0 }
    }

    /// The buffer's text.
    pub fn value(&self) -> (r: String)
        ensures
            r@ == self@.value,
    {
        string_of(self.value.as_slice())
    }

    /// The cursor, in characters from the start.
    pub fn cursor(&self) -> (r: usize)
        ensures
            r == self@.cursor,
    {
        self.cursor
    }

    /// The current ticket.
    pub fn ticket(&self) -> (r: usize)
        ensures
            r == self@.ticket,
    {
        self.ticket
    }

    /// The text before the cursor, as handed to a completion provider.
    pub fn before_cursor(&self) -> (r: String)
        requires
            self.wf(),
        ensures
            r@ == self@.before(),
    {
        string_of(self.value.as_slice().split_at(self.cursor).0)
    }

    /// A user edit: inserts `c` at the cursor, moves the cursor past it and
    /// advances the ticket (wrapping around at the largest `usize`).
    pub fn type_char(&mut self, c: char)
        requires
            old(self).wf(),
        ensures
            final(self).wf(),
            final(self)@.value == old(self)@.value.insert(old(self)@.cursor as int, c),
            final(self)@.cursor == old(self)@.cursor + 1,
            final(self)@.ticket == (if old(self)@.ticket == usize::MAX {
                0
            } else {
                old(self)@.ticket + 1
            }),
    {
        let mut value = self.value.clone();
        value.insert(self.cursor, c);
        let ticket = self.ticket.wrapping_add(1);
        let len = value.len();
        assert(self.cursor + 1 <= len);
        *self = Input { value, cursor: self.cursor + 1, ticket };
    }

    /// A user move: shifts the cursor by `delta` characters, stopping at
    /// either end of the buffer. The ticket is kept.
    pub fn move_(&mut self, delta: isize)
        requires
            old(self).wf(),
        ensures
            final(self).wf(),
            final(self)@.value == old(self)@.value,
            final(self)@.ticket == old(self)@.ticket,
            final(self)@.cursor == (if old(self)@.cursor + delta < 0 {
                0
            } else if old(self)@.cursor + delta > old(self)@.value.len() {
                old(self)@.value.len()
            } else {
                (old(self)@.cursor + delta) as nat
            }),
    {
        let len = self.value.len();
        let cursor = if delta < 0 {
            let back = (0 - (delta as i128)) as usize;
            if back > self.cursor {
                0
            } else {
                self.cursor - back
            }
        } else {
            let fwd = delta as usize;
            if fwd > len - self.cursor {
                len
            } else {
                self.cursor + fwd
            }
        };
        self.cursor = cursor;
    }

    /// Applies a completion. It is refused, with nothing changed, when its
    /// ticket is not the current one or when it would leave the buffer as it
    /// is. Otherwise the word replaces what follows the last separator before
    /// the cursor (all of the text before the cursor where there is none),
    /// the cursor moves by the change in length counted in characters, and the
    /// ticket stays.
    pub fn complete(&mut self, opt: Opt) -> (r: bool)
        requires
            old(self).wf(),
        ensures
            final(self).wf(),
            final(self)@ == old(self)@.complete_next(opt.word@, opt.ticket as nat),
            r == (final(self)@ != old(self)@),
            opt.ticket != old(self)@.ticket ==> !r && final(self)@ == old(self)@,
            r ==> final(self)@.cursor == old(self)@.cursor + final(self)@.value.len()
                - old(self)@.value.len(),
    {
        if self.ticket != opt.ticket {
            return false;
        }
        let word = chars_of(opt.word.as_str());
        let new = completion_of(&self.value, self.cursor, &word);
        if chars_eq(&new, &self.value) {
            return false;
        }
        let cursor = new.len() - (self.value.len() - self.cursor);
        *self = Input { value: new, cursor, ticket: self.ticket };
        true
    }
}

} // verus!
