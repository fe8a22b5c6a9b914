//! Little-endian words in byte buffers.

use byteorder::{ByteOrder, LittleEndian};
use vstd::prelude::*;

verus! {

/// The word whose little-endian encoding is `lo` followed by `hi`.
pub open spec fn word_of(lo: u8, hi: u8) -> u16 {
    (lo as int + 256 * (hi as int)) as u16
}

/// The first byte of the little-endian encoding of `w`.
pub open spec fn low_byte(w: u16) -> u8 {
    (w % 256) as u8
}

/// The second byte of the little-endian encoding of `w`.
pub open spec fn high_byte(w: u16) -> u8 {
    (w / 256) as u8
}

/// The word stored at byte offset `at` of `bytes`.
pub open spec fn word_at(bytes: Seq<u8>, at: int) -> u16 {
    word_of(bytes[at], bytes[at + 1])
}

/// `bytes` with `w` stored at byte offset `at`.
pub open spec fn store_word(bytes: Seq<u8>, at: int, w: u16) -> Seq<u8> {
    bytes.update(at, low_byte(w)).update(at + 1, high_byte(w))
}

/// The two bytes that encode a word.
pub open spec fn word_bytes(w: u16) -> Seq<u8> {
    seq![low_byte(w), high_byte(w)]
}

/// The bytes that encode a sequence of words, one after the other.
pub open spec fn words_bytes(words: Seq<u16>) -> Seq<u8>
    decreases words.len(),
{
    if words.len() == 0 {
        Seq::empty()
    } else {
        words_bytes(words.drop_last()) + word_bytes(words.last())
    }
}

/// The words that a sequence of bytes encodes, two bytes to a word.
pub open spec fn words_in(bytes: Seq<u8>) -> Seq<u16> {
    Seq::new(bytes.len() / 2, |i: int| word_at(bytes, 2 * i))
}

/// A word survives being split into its two bytes.
pub proof fn lemma_word_of_bytes(w: u16)
    ensures
        word_of(low_byte(w), high_byte(w)) == w,
{
}

/// Storing a word changes the two bytes it covers and no others, and reading
/// it back gives the word.
pub proof fn lemma_store_word(bytes: Seq<u8>, at: int, w: u16)
    requires
        0 <= at,
        at + 2 <= bytes.len(),
    ensures
        store_word(bytes, at, w).len() == bytes.len(),
        word_at(store_word(bytes, at, w), at) == w,
        forall|i: int|
            0 <= i < bytes.len() && i != at && i != at + 1 ==> store_word(bytes, at, w)[i]
                == bytes[i],
{
    lemma_word_of_bytes(w);
}

/// Calls `byteorder::LittleEndian::read_u16`, which panics on fewer than two
/// bytes and otherwise returns the word that the first two bytes of `buf`
/// encode, low byte first.
#[verifier::external_body]
pub(crate) fn le_read_u16(buf: &[u8]) -> (w: u16)
    requires
        buf@.len() >= 2,
    ensures
        w == word_of(buf@[0], buf@[1]),
{
    LittleEndian::read_u16(buf)
}

/// Calls `byteorder::LittleEndian::write_u16` on the part of `buf` that
/// starts at `at`. It panics on fewer than two bytes and otherwise overwrites
/// the first two with the encoding of `w`, low byte first, leaving the rest.
/// With two bytes there it does not unwind.
#[verifier::external_body]
pub(crate) fn le_write_u16(buf: &mut Vec<u8>, at: usize, w: u16)
    requires
        at + 2 <= old(buf)@.len(),
    ensures
        final(buf)@ == store_word(old(buf)@, at as int, w),
    no_unwind
{
    LittleEndian::write_u16(&mut buf[at..], w)
}

/// Appends the encoding of a word.
pub fn append_word(buf: &mut Vec<u8>, w: u16)
    ensures
        final(buf)@ == old(buf)@ + word_bytes(w),
{
    let at = buf.len();
    buf.push(0);
    buf.push(0);
    le_write_u16(buf, at, w);
    assert(buf@ =~= old(buf)@ + word_bytes(w));
}

/// Appends the encodings of some words, in their order.
pub fn append_words(buf: &mut Vec<u8>, words: &[u16])
    ensures
        final(buf)@ == old(buf)@ + words_bytes(words@),
{
    let mut i: usize = 0;
    assert(words@.subrange(0, 0) =~= Seq::<u16>::empty());
    assert(buf@ =~= old(buf)@ + words_bytes(words@.subrange(0, 0)));
    while i < words.len()
        invariant
            i <= words@.len(),
            buf@ == old(buf)@ + words_bytes(words@.subrange(0, i as int)),
        decreases words@.len() - i,
    {
        let ghost before = buf@;
        append_word(buf, words[i]);
        proof {
            let upto = words@.subrange(0, i as int + 1);
            assert(upto.drop_last() =~= words@.subrange(0, i as int));
            assert(upto.last() == words@[i as int]);
            assert(buf@ =~= old(buf)@ + words_bytes(upto));
        }
        i = i + 1;
    }
    assert(words@.subrange(0, words@.len() as int) =~= words@);
}

/// Reads the word at byte offset `at`.
pub fn word_from(bytes: &[u8], at: usize) -> (w: u16)
    requires
        at + 2 <= bytes@.len(),
    ensures
        w == word_at(bytes@, at as int),
{
    let len = bytes.len();
    le_read_u16(vstd::slice::slice_subrange(bytes, at, at + 2))
}

/// Reads `count` words that start at byte offset `at`.
pub fn words_from(bytes: &[u8], at: usize, count: usize) -> (words: Vec<u16>)
    requires
        at + 2 * count <= bytes@.len(),
    ensures
        words@ == words_in(bytes@.subrange(at as int, at + 2 * count)),
{
    let len = bytes.len();
    let mut words: Vec<u16> = Vec::new();
    let mut i: usize = 0;
    while i < count
        invariant
            i <= count,
            at + 2 * count <= bytes@.len(),
            bytes@.len() == len,
            words@.len() == i,
            forall|k: int| 0 <= k < i ==> words@[k] == word_at(bytes@, at + 2 * k),
        decreases count - i,
    {
        words.push(word_from(bytes, at + 2 * i));
        i = i + 1;
    }
    assert(words@ =~= words_in(bytes@.subrange(at as int, at + 2 * count)));
    words
}

/// The encoding of a sequence of words holds each word at twice its index,
/// low byte first.
pub proof fn lemma_words_bytes(words: Seq<u16>)
    ensures
        words_bytes(words).len() == 2 * words.len(),
        forall|k: int|
            0 <= k < words.len() ==> words_bytes(words)[2 * k] == low_byte(#[trigger] words[k])
                && words_bytes(words)[2 * k + 1] == high_byte(words[k]),
    decreases words.len(),
{
    if words.len() > 0 {
        lemma_words_bytes(words.drop_last());
        assert forall|k: int| 0 <= k < words.len() implies words_bytes(words)[2 * k] == low_byte(
            #[trigger] words[k],
        ) && words_bytes(words)[2 * k + 1] == high_byte(words[k]) by {
            if k < words.len() - 1 {
                assert(words.drop_last()[k] == words[k]);
            }
        }
    }
}

/// Words survive being encoded and read back.
pub proof fn lemma_words_round_trip(words: Seq<u16>)
    ensures
        words_in(words_bytes(words)) == words,
{
    lemma_words_bytes(words);
    assert forall|k: int| 0 <= k < words.len() implies words_in(words_bytes(words))[k]
        == words[k] by {
        lemma_word_of_bytes(words[k]);
    }
    assert(words_in(words_bytes(words)) =~= words);
}

} // verus!
