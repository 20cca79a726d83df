use vstd::prelude::*;

verus! {

/// Tag of the unsigned interpretation.
pub const TAG_U64: u8 = 0;
/// Tag of the signed interpretation.
pub const TAG_I64: u8 = 1;
/// Tag of the binary64 interpretation.
pub const TAG_F64: u8 = 2;
/// Tag of the opaque pointer interpretation.
pub const TAG_PTR: u8 = 3;

/// A 64-bit payload with a tag that selects how it is read.
/// A binary64 value is carried as its IEEE-754 bit pattern.
#[derive(Clone, Copy, Debug, PartialEq, Eq, Structural)]
pub enum Word {
    U64(u64),
    I64(i64),
    F64(u64),
    Ptr(u64),
}

impl Word {
    /// The tag of the word: 0, 1, 2 or 3.
    pub open spec fn tag_spec(self) -> u8 {
        match self {
            Word::U64(_) => TAG_U64,
            Word::I64(_) => TAG_I64,
            Word::F64(_) => TAG_F64,
            Word::Ptr(_) => TAG_PTR,
        }
    }

    /// The raw 64-bit payload.
    pub open spec fn bits_spec(self) -> u64 {
        match self {
            Word::U64(v) => v,
            Word::I64(v) => v as u64,
            Word::F64(b) => b,
            Word::Ptr(p) => p,
        }
    }

    /// The word with the given tag (taken modulo the four tags) and payload.
    pub open spec fn from_parts_spec(tag: u8, bits: u64) -> Word {
        if tag == TAG_U64 {
            Word::U64(bits)
        } else if tag == TAG_I64 {
            Word::I64(bits as i64)
        } else if tag == TAG_F64 {
            Word::F64(bits)
        } else {
            Word::Ptr(bits)
        }
    }

    pub fn tag(&self) -> (r: u8)
        ensures
            r == self.tag_spec(),
            r <= 3,
    {
        match self {
            Word::U64(_) => TAG_U64,
            Word::I64(_) => TAG_I64,
            Word::F64(_) => TAG_F64,
            Word::Ptr(_) => TAG_PTR,
        }
    }

    /// The payload read as unsigned, without conversion.
    pub fn to_u64(&self) -> (r: u64)
        ensures
            r == self.bits_spec(),
    {
        match self {
            Word::U64(v) => *v,
            Word::I64(v) => *v as u64,
            Word::F64(b) => *b,
            Word::Ptr(p) => *p,
        }
    }

    /// The payload read as signed, without conversion.
    pub fn to_i64(&self) -> (r: i64)
        ensures
            r == self.bits_spec() as i64,
    {
        self.to_u64() as i64
    }

    /// The payload read as an index.
    pub fn to_usize(&self) -> (r: usize)
        ensures
            r == self.bits_spec() as usize,
    {
        self.to_u64() as usize
    }

    pub fn from_parts(tag: u8, bits: u64) -> (r: Word)
        ensures
            r == Word::from_parts_spec(tag, bits),
    {
        if tag == TAG_U64 {
            Word::U64(bits)
        } else if tag == TAG_I64 {
            Word::I64(bits as i64)
        } else if tag == TAG_F64 {
            Word::F64(bits)
        } else {
            Word::Ptr(bits)
        }
    }
}

/// A word rebuilt from its own tag and payload is the same word.
pub proof fn lemma_word_parts(w: Word)
    ensures
        Word::from_parts_spec(w.tag_spec(), w.bits_spec()) == w,
{
    if let Word::I64(v) = w {
        assert((v as u64) as i64 == v) by (bit_vector);
    }
}

} // verus!
