//! Buffer layouts as sequences of 32-bit words, and their little-endian bytes.

use vstd::prelude::*;

verus! {

/// The four bytes of a word, least significant first.
pub open spec fn le_bytes(word: u32) -> Seq<u8> {
    seq![
        (word % 0x100) as u8,
        ((word / 0x100) % 0x100) as u8,
        ((word / 0x1_0000) % 0x100) as u8,
        (word / 0x100_0000) as u8,
    ]
}

/// The word that four bytes spell, least significant first.
pub open spec fn le_word(b0: u8, b1: u8, b2: u8, b3: u8) -> u32 {
    (b0 + b1 * 0x100 + b2 * 0x1_0000 + b3 * 0x100_0000) as u32
}

/// The bit pattern of a signed word in two's complement.
pub open spec fn signed_bits(v: i32) -> u32 {
    if v >= 0 {
        v as u32
    } else {
        (v + 0x1_0000_0000) as u32
    }
}

/// The signed word with the given two's complement bit pattern.
pub open spec fn bits_signed(w: u32) -> i32 {
    if w < 0x8000_0000 {
        w as i32
    } else {
        (w - 0x1_0000_0000) as i32
    }
}

/// The bytes of a sequence of words: four for each word, in order.
pub open spec fn words_bytes(words: Seq<u32>) -> Seq<u8> {
    Seq::new(4 * words.len(), |i: int| le_bytes(words[i / 4])[i % 4])
}

/// The words that a sequence of bytes spells, four bytes to a word. Bytes
/// beyond the last full group of four are ignored.
pub open spec fn bytes_words(bytes: Seq<u8>) -> Seq<u32> {
    Seq::new(
        bytes.len() / 4,
        |i: int| le_word(bytes[4 * i], bytes[4 * i + 1], bytes[4 * i + 2], bytes[4 * i + 3]),
    )
}

/// Spelling a word as bytes and reading the bytes back gives the word.
pub proof fn lemma_word_round_trip(word: u32)
    ensures
        le_bytes(word).len() == 4,
        le_word(le_bytes(word)[0], le_bytes(word)[1], le_bytes(word)[2], le_bytes(word)[3])
            == word,
{
}

/// Reading bytes as a word and spelling the word gives the bytes.
pub proof fn lemma_bytes_round_trip(b0: u8, b1: u8, b2: u8, b3: u8)
    ensures
        le_bytes(le_word(b0, b1, b2, b3)) == seq![b0, b1, b2, b3],
{
    let word = le_word(b0, b1, b2, b3);
    let upper = b1 + b2 * 0x100 + b3 * 0x1_0000;
    let top = b2 + b3 * 0x100;
    vstd::arithmetic::div_mod::lemma_fundamental_div_mod_converse(
        word as int,
        0x100,
        upper,
        b0 as int,
    );
    vstd::arithmetic::div_mod::lemma_fundamental_div_mod_converse(upper, 0x100, top, b1 as int);
    vstd::arithmetic::div_mod::lemma_fundamental_div_mod_converse(
        top,
        0x100,
        b3 as int,
        b2 as int,
    );
    assert(word / 0x100 == upper);
    assert(word / 0x1_0000 == top) by {
        vstd::arithmetic::div_mod::lemma_div_denominator(word as int, 0x100, 0x100);
    }
    assert(word / 0x100_0000 == b3) by {
        vstd::arithmetic::div_mod::lemma_div_denominator(word as int, 0x1_0000, 0x100);
    }
    assert(le_bytes(word) =~= seq![b0, b1, b2, b3]);
}

/// A signed word is recovered from its bit pattern, and the pattern from the
/// word.
pub proof fn lemma_signed_round_trip(v: i32, w: u32)
    ensures
        bits_signed(signed_bits(v)) == v,
        signed_bits(bits_signed(w)) == w,
{
}

/// Decoding inverts encoding: the bytes of a sequence of words spell exactly
/// those words.
pub proof fn lemma_words_round_trip(words: Seq<u32>)
    ensures
        words_bytes(words).len() == 4 * words.len(),
        bytes_words(words_bytes(words)) == words,
{
    let bytes = words_bytes(words);
    assert forall|i: int| 0 <= i < words.len() implies #[trigger] bytes_words(bytes)[i]
        == words[i] by {
        lemma_word_round_trip(words[i]);
        assert(bytes[4 * i] == le_bytes(words[i])[0]);
        assert(bytes[4 * i + 1] == le_bytes(words[i])[1]);
        assert(bytes[4 * i + 2] == le_bytes(words[i])[2]);
        assert(bytes[4 * i + 3] == le_bytes(words[i])[3]);
    }
    assert(bytes_words(bytes) =~= words);
}

/// Appending a word appends its four bytes.
pub proof fn lemma_words_bytes_push(words: Seq<u32>, word: u32)
    ensures
        words_bytes(words.push(word)) == words_bytes(words) + le_bytes(word),
{
    assert(words_bytes(words.push(word)) =~= words_bytes(words) + le_bytes(word));
}

/// The four bytes of a word, least significant first.
pub fn word_to_le_bytes(word: u32) -> (bytes: [u8; 4])
    ensures
        bytes@ == le_bytes(word),
{
    let bytes = [
        (word % 0x100) as u8,
        ((word / 0x100) % 0x100) as u8,
        ((word / 0x1_0000) % 0x100) as u8,
        (word / 0x100_0000) as u8,
    ];
    assert(bytes@ =~= le_bytes(word));
    bytes
}

/// The two's complement bit pattern of a signed word.
pub fn signed_to_bits(v: i32) -> (w: u32)
    ensures
        w == signed_bits(v),
{
    if v >= 0 {
        v as u32
    } else {
        (v as i64 + 0x1_0000_0000) as u32
    }
}

/// The signed word with the given two's complement bit pattern.
pub fn bits_to_signed(w: u32) -> (v: i32)
    ensures
        v == bits_signed(w),
{
    if w < 0x8000_0000 {
        w as i32
    } else {
        (w as i64 - 0x1_0000_0000) as i32
    }
}

/// Encodes a layout: every word as four bytes, least significant first.
pub fn encode_words(words: &Vec<u32>) -> (bytes: Vec<u8>)
    ensures
        bytes@ == words_bytes(words@),
        bytes@.len() == 4 * words@.len(),
{
    let mut bytes: Vec<u8> = Vec::new();
    let mut i: usize = 0;
    assert(bytes@ =~= words_bytes(words@.take(0)));
    while i < words.len()
        invariant
            i <= words.len(),
            bytes@ == words_bytes(words@.take(i as int)),
        decreases words.len() - i,
    {
        let word = words[i];
        let quad = word_to_le_bytes(word);
        bytes.push(quad[0]);
        bytes.push(quad[1]);
        bytes.push(quad[2]);
        bytes.push(quad[3]);
        proof {
            lemma_words_bytes_push(words@.take(i as int), word);
            assert(words@.take(i as int).push(word) =~= words@.take(i + 1));
            assert(bytes@ =~= words_bytes(words@.take(i as int)) + le_bytes(word));
        }
        i = i + 1;
    }
    assert(words@.take(i as int) =~= words@);
    bytes
}

/// Decodes a layout: every four bytes as a word. `None` unless the number of
/// bytes is a multiple of four.
pub fn decode_words(bytes: &Vec<u8>) -> (words: Option<Vec<u32>>)
    ensures
        bytes@.len() % 4 != 0 ==> words is None,
        bytes@.len() % 4 == 0 ==> words is Some && words->Some_0@ == bytes_words(bytes@),
{
    if bytes.len() % 4 != 0 {
        return None;
    }
    let count: usize = bytes.len() / 4;
    let mut words: Vec<u32> = Vec::new();
    let mut i: usize = 0;
    while i < count
        invariant
            i <= count,
            4 * count == bytes@.len(),
            4 * count <= usize::MAX,
            words@.len() == i,
            forall|j: int| 0 <= j < i ==> #[trigger] words@[j] == bytes_words(bytes@)[j],
        decreases count - i,
    {
        let b0 = bytes[4 * i];
        let b1 = bytes[4 * i + 1];
        let b2 = bytes[4 * i + 2];
        let b3 = bytes[4 * i + 3];
        let word: u32 = b0 as u32 + b1 as u32 * 0x100 + b2 as u32 * 0x1_0000 + b3 as u32
            * 0x100_0000;
        words.push(word);
        i = i + 1;
    }
    assert(words@ =~= bytes_words(bytes@));
    Some(words)
}

} // verus!
