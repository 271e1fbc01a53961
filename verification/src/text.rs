//! Text buffer: an ordered sequence of characters kept in lock-step
//! with a parallel array of their single-byte encodings, so a byte view
//! can be handed to a display sink without re-encoding.

use vstd::prelude::*;
use crate::array::{GrowArray, GrowArrayIter};
use vstd::std_specs::iter::IteratorSpec;

verus! {

/// The single-byte encoding stored beside each character: its low byte.
pub open spec fn byte_of_char(c: char) -> u8 {
    (c as u32 % 256) as u8
}

/// Ordered character sequence with a byte-encoded shadow of equal
/// length. The abstraction is the character sequence; `spec_bytes` is
/// the shadow.
pub struct Text {
    chars: GrowArray<char>,
    bytes: GrowArray<u8>,
}

impl View for Text {
    type V = Seq<char>;

    closed spec fn view(&self) -> Seq<char> {
        self.chars@
    }
}

impl Text {
    #[verifier::type_invariant]
    spec fn wf(&self) -> bool {
        &&& self.bytes@.len() == self.chars@.len()
        &&& forall|i: int|
            0 <= i < self.chars@.len() ==> #[trigger] self.bytes@[i] == byte_of_char(
                self.chars@[i],
            )
    }

    pub closed spec fn spec_bytes(&self) -> Seq<u8> {
        self.bytes@
    }

    /// The character array and the byte array have equal length and
    /// carry the same content; every mutating operation below restates
    /// this of its result.
    pub open spec fn shadow_consistent(&self) -> bool {
        &&& self.spec_bytes().len() == self@.len()
        &&& forall|i: int|
            0 <= i < self@.len() ==> #[trigger] self.spec_bytes()[i] == byte_of_char(self@[i])
    }

    pub fn new() -> (t: Self)
        ensures
            t@ == Seq::<char>::empty(),
            t.shadow_consistent(),
    {
        Self { chars: GrowArray::new(), bytes: GrowArray::new() }
    }

    pub fn len(&self) -> (n: usize)
        ensures
            n == self@.len(),
    {
        self.chars.len()
    }

    pub fn is_empty(&self) -> (e: bool)
        ensures
            e == (self@.len() == 0),
    {
        self.chars.is_empty()
    }

    /// Appends one character, updating both arrays together.
    pub fn push(&mut self, c: char)
        requires
            old(self)@.len() < usize::MAX as int / 2,
        ensures
            final(self)@ == old(self)@.push(c),
            final(self).shadow_consistent(),
    {
        proof {
            use_type_invariant(&*self);
        }
        let mut tmp = Text::new();
        core::mem::swap(&mut tmp, self);
        let Text { mut chars, mut bytes } = tmp;
        chars.push(c);
        bytes.push(char_low_byte(c));
        *self = Text { chars, bytes };
    }

    /// Places `c` at `index`, shifting both tails right together. An
    /// index past the end is a contract violation, so it is ruled out
    /// here rather than reported.
    pub fn insert(&mut self, index: usize, c: char)
        requires
            index <= old(self)@.len(),
            old(self)@.len() < usize::MAX as int / 2,
        ensures
            final(self)@ == old(self)@.insert(index as int, c),
            final(self).shadow_consistent(),
    {
        proof {
            use_type_invariant(&*self);
        }
        let mut tmp = Text::new();
        core::mem::swap(&mut tmp, self);
        let Text { mut chars, mut bytes } = tmp;
        chars.insert(index, c);
        bytes.insert(index, char_low_byte(c));
        *self = Text { chars, bytes };
    }

    /// Rebuilds both arrays in one pass over a source character
    /// sequence.
    pub fn from_chars(src: &GrowArray<char>) -> (t: Self)
        requires
            src@.len() < usize::MAX as int / 2,
        ensures
            t@ == src@,
            t.shadow_consistent(),
    {
        let n = src.len();
        let mut t = Text::new();
        let mut i: usize = 0;
        while i < n
            invariant
                i <= n,
                n == src@.len(),
                n < usize::MAX as int / 2,
                t@ == src@.subrange(0, i as int),
                t.shadow_consistent(),
            decreases n - i,
        {
            t.push(*src.get(i));
            proof {
                assert(t@ =~= src@.subrange(0, i + 1));
            }
            i = i + 1;
        }
        proof {
            assert(t@ =~= src@);
        }
        t
    }

    /// Builds a buffer from the characters of a borrowed string.
    pub fn from_str(s: &str) -> (t: Self)
        requires
            s@.len() < usize::MAX as int / 2,
        ensures
            t@ == s@,
            t.shadow_consistent(),
    {
        broadcast use vstd::string::axiom_spec_iter;
        broadcast use vstd::string::next_postcondition;

        let mut t = Text::new();
        let mut it = s.chars();
        loop
            invariant
                t@ + it.remaining() == s@,
                s@.len() < usize::MAX as int / 2,
                t.shadow_consistent(),
            ensures
                t@ == s@,
                t.shadow_consistent(),
            decreases s@.len() - t@.len(),
        {
            match it.next() {
                Some(c) => {
                    t.push(c);
                    proof {
                        assert(t@ + it.remaining() =~= s@);
                    }
                },
                None => {
                    proof {
                        assert(t@ =~= s@);
                    }
                    break ;
                },
            }
        }
        t
    }

    /// A cursor over the characters.
    pub fn chars(&self) -> (it: GrowArrayIter<'_, char>)
        ensures
            it.remaining() == self@,
    {
        self.chars.iter()
    }

    /// The character at `index`.
    pub fn char_at(&self, index: usize) -> (c: char)
        requires
            index < self@.len(),
        ensures
            c == self@[index as int],
    {
        *self.chars.get(index)
    }

    /// The byte-encoded shadow, one byte per character.
    pub fn as_bytes(&self) -> (b: &[u8])
        ensures
            b@.len() == self@.len(),
            forall|i: int| 0 <= i < self@.len() ==> #[trigger] b@[i] == byte_of_char(self@[i]),
    {
        proof {
            use_type_invariant(self);
        }
        self.bytes.as_slice()
    }

    /// Moves every character of `rhs` onto the end of `self`, both
    /// arrays together.
    pub fn append(&mut self, rhs: Text)
        requires
            old(self)@.len() + rhs@.len() <= usize::MAX as int / 2,
        ensures
            final(self)@ == old(self)@ + rhs@,
            final(self).shadow_consistent(),
    {
        proof {
            use_type_invariant(&*self);
            use_type_invariant(&rhs);
        }
        let mut tmp = Text::new();
        core::mem::swap(&mut tmp, self);
        let Text { mut chars, mut bytes } = tmp;
        let Text { chars: rchars, bytes: rbytes } = rhs;
        chars.append(rchars);
        bytes.append(rbytes);
        *self = Text { chars, bytes };
    }

    /// A fresh buffer holding `self`'s characters followed by `rhs`'s.
    pub fn concat(self, rhs: Text) -> (t: Text)
        requires
            self@.len() + rhs@.len() <= usize::MAX as int / 2,
        ensures
            t@ == self@ + rhs@,
            t.shadow_consistent(),
    {
        let mut t = self;
        t.append(rhs);
        t
    }

    /// A fresh buffer with the same content.
    pub fn duplicate(&self) -> (t: Self)
        ensures
            t@ == self@,
            t.shadow_consistent(),
    {
        proof {
            use_type_invariant(self);
        }
        Self { chars: self.chars.duplicate(), bytes: self.bytes.duplicate() }
    }
}

impl Default for Text {
    /// The same fresh, empty buffer `new` gives.
    fn default() -> (t: Self)
        ensures
            t@ == Seq::<char>::empty(),
            t.shadow_consistent(),
    {
        Text::new()
    }
}

/// The low byte of a character, the encoding kept in the shadow array.
pub fn char_low_byte(c: char) -> (b: u8)
    ensures
        b == byte_of_char(c),
{
    (c as u32 % 256) as u8
}

} // verus!
