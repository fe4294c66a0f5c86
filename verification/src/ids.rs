//! Object and commit identifiers, held as raw id bytes, with a verified
//! short (abbreviated hexadecimal) rendering.

use vstd::prelude::*;
use crate::text::{nibble_char, nibble_char_exec, push_char};

verus! {

/// An identifier of an object (tree or blob): the raw bytes of its id.
#[derive(Debug, PartialEq, Eq, Clone)]
pub struct ObjectId {
    /// the raw id bytes (20 for the engine's object ids)
    pub bytes: Vec<u8>,
}

/// An identifier of a commit: the raw bytes of its id.
#[derive(Debug, PartialEq, Eq, Clone)]
pub struct CommitId {
    /// the raw id bytes (20 for the engine's object ids)
    pub bytes: Vec<u8>,
}

/// The lower-case hexadecimal rendering of a byte sequence, two characters
/// per byte, most significant nibble first.
pub open spec fn hex_chars(bytes: Seq<u8>) -> Seq<char>
    decreases bytes.len(),
{
    if bytes.len() == 0 {
        Seq::empty()
    } else {
        seq![
            nibble_char(bytes[0] as int / 16),
            nibble_char(bytes[0] as int % 16),
        ] + hex_chars(bytes.drop_first())
    }
}

/// The hexadecimal rendering is two characters per byte.
pub proof fn lemma_hex_chars_len(bytes: Seq<u8>)
    ensures
        hex_chars(bytes).len() == 2 * bytes.len(),
    decreases bytes.len(),
{
    if bytes.len() > 0 {
        lemma_hex_chars_len(bytes.drop_first());
    }
}

/// Extending the bytes by one extends the rendering by its two digits.
pub proof fn lemma_hex_chars_push(bytes: Seq<u8>, b: u8)
    ensures
        hex_chars(bytes.push(b)) == hex_chars(bytes)
            + seq![nibble_char(b as int / 16), nibble_char(b as int % 16)],
    decreases bytes.len(),
{
    if bytes.len() == 0 {
        assert(bytes.push(b) =~= seq![b]);
        assert(seq![b].drop_first() =~= Seq::<u8>::empty());
        assert(hex_chars(Seq::<u8>::empty()) =~= Seq::<char>::empty());
        assert(hex_chars(seq![b]) =~= hex_chars(bytes)
            + seq![nibble_char(b as int / 16), nibble_char(b as int % 16)]);
    } else {
        assert(bytes.push(b).drop_first() =~= bytes.drop_first().push(b));
        lemma_hex_chars_push(bytes.drop_first(), b);
        assert(hex_chars(bytes.push(b)) =~= hex_chars(bytes)
            + seq![nibble_char(b as int / 16), nibble_char(b as int % 16)]);
    }
}

/// The short rendering of an id: the first seven characters of its
/// hexadecimal rendering (all of it, for ids shorter than four bytes).
pub open spec fn short_id_chars(bytes: Seq<u8>) -> Seq<char> {
    if 2 * bytes.len() <= 7 {
        hex_chars(bytes)
    } else {
        hex_chars(bytes).take(7)
    }
}

impl CommitId {
    /// A commit id over the given raw id bytes.
    pub fn new(bytes: Vec<u8>) -> (r: CommitId)
        ensures
            r.bytes == bytes,
    {
        CommitId { bytes }
    }

    /// The short human-readable rendering of this id.
    pub fn get_short_string(&self) -> (r: String)
        ensures
            r@ == short_id_chars(self.bytes@),
    {
        let mut s = String::new();
        let mut i: usize = 0;
        proof {
            assert(self.bytes@.take(0) =~= Seq::<u8>::empty());
            assert(s@ =~= hex_chars(self.bytes@.take(0)));
        }
        while i < self.bytes.len() && i < 4
            invariant
                i <= self.bytes@.len(),
                i <= 4,
                s@ == hex_chars(self.bytes@.take(i as int)),
            decreases self.bytes@.len() - i,
        {
            let b: u8 = self.bytes[i];
            push_char(&mut s, nibble_char_exec(b / 16));
            push_char(&mut s, nibble_char_exec(b % 16));
            proof {
                assert(self.bytes@.take(i as int).push(b) =~= self.bytes@.take(i + 1));
                lemma_hex_chars_push(self.bytes@.take(i as int), b);
                assert(s@ =~= hex_chars(self.bytes@.take(i + 1)));
            }
            i = i + 1;
        }
        proof {
            lemma_hex_chars_len(self.bytes@.take(i as int));
        }
        if s.as_str().unicode_len() > 7 {
            proof {
                assert(i == 4);
                lemma_take_hex(self.bytes@, 4);
                lemma_hex_chars_len(self.bytes@);
                assert(hex_chars(self.bytes@).take(8).subrange(0, 7)
                    =~= hex_chars(self.bytes@).take(7));
            }
            String::from_str(s.as_str().substring_char(0, 7))
        } else {
            proof {
                assert(i == self.bytes@.len());
                assert(self.bytes@.take(i as int) =~= self.bytes@);
            }
            s
        }
    }
}

/// The hexadecimal rendering distributes over concatenation.
pub proof fn lemma_hex_chars_concat(a: Seq<u8>, b: Seq<u8>)
    ensures
        hex_chars(a + b) == hex_chars(a) + hex_chars(b),
    decreases a.len(),
{
    if a.len() == 0 {
        assert(a + b =~= b);
        assert(hex_chars(a) + hex_chars(b) =~= hex_chars(b));
    } else {
        assert((a + b).drop_first() =~= a.drop_first() + b);
        lemma_hex_chars_concat(a.drop_first(), b);
        assert(hex_chars(a + b) =~= hex_chars(a) + hex_chars(b));
    }
}

/// The hexadecimal rendering of a prefix of the bytes is a prefix of the
/// full rendering.
pub proof fn lemma_take_hex(bytes: Seq<u8>, i: int)
    requires
        0 <= i <= bytes.len(),
    ensures
        hex_chars(bytes.take(i)) == hex_chars(bytes).take(2 * i),
{
    lemma_hex_chars_len(bytes);
    lemma_hex_chars_len(bytes.take(i));
    lemma_hex_chars_len(bytes.skip(i));
    assert(bytes =~= bytes.take(i) + bytes.skip(i));
    lemma_hex_chars_concat(bytes.take(i), bytes.skip(i));
    assert(hex_chars(bytes.take(i)) =~= hex_chars(bytes).take(2 * i));
}

impl ObjectId {
    /// An object id over the given raw id bytes.
    pub fn new(bytes: Vec<u8>) -> (r: ObjectId)
        ensures
            r.bytes == bytes,
    {
        ObjectId { bytes }
    }

    /// The all-zero id, as used by entries that refer to no object.
    pub fn zero() -> (r: ObjectId)
        ensures
            r.bytes@.len() == 20,
            forall|k: int| 0 <= k < 20 ==> r.bytes@[k] == 0u8,
    {
        let mut bytes: Vec<u8> = Vec::new();
        let mut i: usize = 0;
        while i < 20
            invariant
                i <= 20,
                bytes@.len() == i,
                forall|k: int| 0 <= k < i ==> bytes@[k] == 0u8,
            decreases 20 - i,
        {
            bytes.push(0u8);
            i = i + 1;
        }
        ObjectId { bytes }
    }
}

} // verus!
