//! Kinds of timing tag that the engine can report to an observer.

use vstd::prelude::*;

verus! {

/// The kind of a timing tag.
#[derive(Clone, Copy, Debug, PartialEq, Eq, Structural)]
pub enum Tag {
    Freq,
    Modulation,
    NoteOn,
}

impl Tag {
    /// The number that stands for this tag.
    pub open spec fn number(self) -> int {
        match self {
            Tag::Freq => 0,
            Tag::Modulation => 1,
            Tag::NoteOn => 2,
        }
    }

    /// The number that stands for this tag.
    pub fn index(self) -> (r: u8)
        ensures
            r == self.number(),
    {
        match self {
            Tag::Freq => 0,
            Tag::Modulation => 1,
            Tag::NoteOn => 2,
        }
    }

    /// The tag that `n` stands for, if any.
    pub fn from_i64(n: i64) -> (r: Option<Tag>)
        ensures
            match r {
                Some(tag) => tag.number() == n,
                None => n < 0 || n > 2,
            },
    {
        if n == 0 {
            Some(Tag::Freq)
        } else if n == 1 {
            Some(Tag::Modulation)
        } else if n == 2 {
            Some(Tag::NoteOn)
        } else {
            None
        }
    }
}

} // verus!
