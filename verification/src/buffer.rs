//! The module buffer protocol.
//!
//! The canonical wire format of a compiled module is an immutable byte
//! sequence, shared by fresh compilation output, incremental cache
//! entries, and final emission.  A legacy fixed-width word view exists
//! only behind a validated conversion boundary: a byte sequence converts
//! to words exactly when its length is a multiple of the word size.

use vstd::prelude::*;

use crate::errors::BuildError;

verus! {

/// The word size of the legacy representation, in bytes.
pub const WORD_SIZE: usize = 4;

/// A serialized module payload.
#[derive(Debug)]
pub struct QirModuleBuffer(pub Vec<u8>);

impl QirModuleBuffer {
    /// A zero-copy view of the payload bytes.
    pub fn data(&self) -> (r: &[u8])
        ensures
            r@ == self.0@,
    {
        self.0.as_slice()
    }
}

/// A per-unit summary buffer carried into the thin-merge step.  The
/// current merge is a structural no-op, so the summary is the full
/// payload.
#[derive(Debug)]
pub struct QirThinBuffer(pub Vec<u8>);

impl QirThinBuffer {
    /// A zero-copy view of the payload bytes.
    pub fn data(&self) -> (r: &[u8])
        ensures
            r@ == self.0@,
    {
        self.0.as_slice()
    }
}

/// The little-endian word assembled from four bytes.
pub open spec fn word_of_bytes(b0: u8, b1: u8, b2: u8, b3: u8) -> u32 {
    b0 as u32 | (b1 as u32) << 8u32 | (b2 as u32) << 16u32 | (b3 as u32) << 24u32
}

/// The four little-endian bytes of a word.
pub open spec fn bytes_of_word(w: u32) -> Seq<u8> {
    seq![
        (w & 0xff) as u8,
        ((w >> 8u32) & 0xff) as u8,
        ((w >> 16u32) & 0xff) as u8,
        ((w >> 24u32) & 0xff) as u8,
    ]
}

/// Unpacking a packed word recovers the original bytes.
pub proof fn lemma_word_of_bytes_inverse(b0: u8, b1: u8, b2: u8, b3: u8)
    ensures
        bytes_of_word(word_of_bytes(b0, b1, b2, b3)) =~= seq![b0, b1, b2, b3],
{
    let w = b0 as u32 | (b1 as u32) << 8u32 | (b2 as u32) << 16u32 | (b3 as u32) << 24u32;
    assert(((b0 as u32 | (b1 as u32) << 8u32 | (b2 as u32) << 16u32 | (b3 as u32) << 24u32)
        & 0xff) as u8 == b0) by (bit_vector);
    assert((((b0 as u32 | (b1 as u32) << 8u32 | (b2 as u32) << 16u32 | (b3 as u32) << 24u32)
        >> 8u32) & 0xff) as u8 == b1) by (bit_vector);
    assert((((b0 as u32 | (b1 as u32) << 8u32 | (b2 as u32) << 16u32 | (b3 as u32) << 24u32)
        >> 16u32) & 0xff) as u8 == b2) by (bit_vector);
    assert((((b0 as u32 | (b1 as u32) << 8u32 | (b2 as u32) << 16u32 | (b3 as u32) << 24u32)
        >> 24u32) & 0xff) as u8 == b3) by (bit_vector);
}

/// Packing the unpacked bytes recovers the original word.
pub proof fn lemma_bytes_of_word_inverse(w: u32)
    ensures
        word_of_bytes(
            (w & 0xff) as u8,
            ((w >> 8u32) & 0xff) as u8,
            ((w >> 16u32) & 0xff) as u8,
            ((w >> 24u32) & 0xff) as u8,
        ) == w,
{
    assert(((w & 0xff) as u8) as u32 | ((((w >> 8u32) & 0xff) as u8) as u32) << 8u32 | ((((w
        >> 16u32) & 0xff) as u8) as u32) << 16u32 | ((((w >> 24u32) & 0xff) as u8) as u32)
        << 24u32 == w) by (bit_vector);
}

/// The words of a byte sequence whose length is a multiple of the word
/// size, in order.
pub open spec fn words_of_bytes(s: Seq<u8>) -> Seq<u32>
    decreases s.len(),
{
    if s.len() < 4 {
        Seq::empty()
    } else {
        seq![word_of_bytes(s[0], s[1], s[2], s[3])] + words_of_bytes(s.skip(4))
    }
}

/// The byte sequence of a word sequence.
pub open spec fn bytes_of_words(ws: Seq<u32>) -> Seq<u8>
    decreases ws.len(),
{
    if ws.len() == 0 {
        Seq::empty()
    } else {
        bytes_of_word(ws[0]) + bytes_of_words(ws.skip(1))
    }
}

/// A word sequence serializes to four bytes per word.
pub proof fn lemma_bytes_of_words_len(ws: Seq<u32>)
    ensures
        bytes_of_words(ws).len() == 4 * ws.len(),
    decreases ws.len(),
{
    if ws.len() != 0 {
        lemma_bytes_of_words_len(ws.skip(1));
    }
}

/// Law: for a byte sequence whose length is a multiple of the word
/// size, conversion to words and back is the identity.
pub proof fn lemma_words_round_trip(s: Seq<u8>)
    requires
        s.len() % 4 == 0,
    ensures
        bytes_of_words(words_of_bytes(s)) =~= s,
    decreases s.len(),
{
    if s.len() != 0 {
        assert(s.len() >= 4);
        let rest = s.skip(4);
        assert(rest.len() % 4 == 0);
        lemma_words_round_trip(rest);
        lemma_word_of_bytes_inverse(s[0], s[1], s[2], s[3]);
        let ws = words_of_bytes(s);
        assert(ws.skip(1) =~= words_of_bytes(rest));
        assert(bytes_of_words(ws) =~= bytes_of_word(ws[0]) + bytes_of_words(words_of_bytes(rest)));
        assert(bytes_of_word(ws[0]) + rest =~= s);
    }
}

/// Law: conversion of any word sequence to bytes and back is the
/// identity.
pub proof fn lemma_bytes_round_trip(ws: Seq<u32>)
    ensures
        words_of_bytes(bytes_of_words(ws)) =~= ws,
    decreases ws.len(),
{
    lemma_bytes_of_words_len(ws);
    if ws.len() != 0 {
        lemma_bytes_round_trip(ws.skip(1));
        lemma_bytes_of_word_inverse(ws[0]);
        let s = bytes_of_words(ws);
        lemma_bytes_of_words_len(ws.skip(1));
        assert(s.len() >= 4);
        assert(s.skip(4) =~= bytes_of_words(ws.skip(1)));
        assert(s[0] == (ws[0] & 0xff) as u8);
        assert(s[1] == ((ws[0] >> 8u32) & 0xff) as u8);
        assert(s[2] == ((ws[0] >> 16u32) & 0xff) as u8);
        assert(s[3] == ((ws[0] >> 24u32) & 0xff) as u8);
        assert(word_of_bytes(s[0], s[1], s[2], s[3]) == ws[0]);
    }
}

/// Converts a payload into the legacy word representation.  Succeeds
/// exactly when the byte length is a multiple of the word size;
/// otherwise nothing of the payload is reinterpreted.
pub fn bytes_to_words(b: &[u8]) -> (r: Result<Vec<u32>, BuildError>)
    ensures
        b@.len() % 4 == 0 ==> (r matches Ok(ws) && ws@ == words_of_bytes(b@)),
        b@.len() % 4 != 0 ==> (r matches Err(e) && e matches BuildError::BufferSizeMismatch {
            length,
            word_size,
        } && length == b@.len() && word_size == WORD_SIZE),
{
    let n = b.len();
    if n % WORD_SIZE != 0 {
        return Err(BuildError::BufferSizeMismatch { length: n, word_size: WORD_SIZE });
    }
    let mut ws: Vec<u32> = Vec::new();
    let mut i: usize = 0;
    proof {
        assert(b@.skip(0) =~= b@);
    }
    while i < n
        invariant
            n == b@.len(),
            n % 4 == 0,
            i % 4 == 0,
            0 <= i <= n,
            words_of_bytes(b@) == ws@ + words_of_bytes(b@.skip(i as int)),
        decreases n - i,
    {
        assert(n - i >= 4);
        let w0 = b[i] as u32;
        let w1 = (b[i + 1] as u32) << 8u32;
        let w2 = (b[i + 2] as u32) << 16u32;
        let w3 = (b[i + 3] as u32) << 24u32;
        let w = w0 | w1 | w2 | w3;
        proof {
            let tail = b@.skip(i as int);
            assert(tail[0] == b@[i as int]);
            assert(tail[1] == b@[i as int + 1]);
            assert(tail[2] == b@[i as int + 2]);
            assert(tail[3] == b@[i as int + 3]);
            assert(w == word_of_bytes(tail[0], tail[1], tail[2], tail[3]));
            assert(tail.skip(4) =~= b@.skip(i as int + 4));
            assert(words_of_bytes(tail) == seq![w] + words_of_bytes(b@.skip(i as int + 4)));
        }
        ws.push(w);
        proof {
            assert(ws@ =~= ws@.drop_last().push(w));
            assert(ws@.drop_last() + (seq![w] + words_of_bytes(b@.skip(i as int + 4))) =~= ws@
                + words_of_bytes(b@.skip(i as int + 4)));
        }
        i += 4;
    }
    proof {
        assert(b@.skip(i as int) =~= Seq::<u8>::empty());
        assert(words_of_bytes(b@) =~= ws@);
    }
    Ok(ws)
}

/// Converts the legacy word representation back into payload bytes.
pub fn words_to_bytes(ws: &[u32]) -> (r: Vec<u8>)
    ensures
        r@ == bytes_of_words(ws@),
{
    let n = ws.len();
    let mut out: Vec<u8> = Vec::new();
    let mut i: usize = 0;
    proof {
        assert(ws@.skip(0) =~= ws@);
    }
    while i < n
        invariant
            n == ws@.len(),
            0 <= i <= n,
            bytes_of_words(ws@) == out@ + bytes_of_words(ws@.skip(i as int)),
        decreases n - i,
    {
        let ghost prev = out@;
        let w = ws[i];
        let b0 = (w & 0xff) as u8;
        let b1 = ((w >> 8u32) & 0xff) as u8;
        let b2 = ((w >> 16u32) & 0xff) as u8;
        let b3 = ((w >> 24u32) & 0xff) as u8;
        proof {
            let tail = ws@.skip(i as int);
            assert(tail[0] == ws@[i as int]);
            assert(tail.skip(1) =~= ws@.skip(i as int + 1));
            assert(bytes_of_words(tail) == bytes_of_word(w) + bytes_of_words(
                ws@.skip(i as int + 1),
            ));
            assert(bytes_of_word(w) =~= seq![b0, b1, b2, b3]);
        }
        out.push(b0);
        out.push(b1);
        out.push(b2);
        out.push(b3);
        proof {
            assert(out@ =~= prev + seq![b0, b1, b2, b3]);
            assert(prev + (bytes_of_word(w) + bytes_of_words(ws@.skip(i as int + 1))) =~= out@
                + bytes_of_words(ws@.skip(i as int + 1)));
        }
        i += 1;
    }
    proof {
        assert(ws@.skip(i as int) =~= Seq::<u32>::empty());
        assert(bytes_of_words(ws@) =~= out@);
    }
    out
}

} // verus!
