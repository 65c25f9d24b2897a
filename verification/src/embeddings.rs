//! How an embedding is stored: each of its numbers as the four bytes of its
//! bit pattern, lowest byte first. The numbers are fractions; the library
//! carries each as the 32-bit word of its bit pattern, which the caller
//! makes and reads.

use vstd::prelude::*;

verus! {

/// The four bytes of a word, the lowest first.
pub open spec fn word_bytes(w: u32) -> Seq<u8> {
    seq![
        (w % 256) as u8,
        ((w / 256) % 256) as u8,
        ((w / 65536) % 256) as u8,
        (w / 16777216) as u8,
    ]
}

/// The word of four bytes, the lowest first.
pub open spec fn word_of(b0: u8, b1: u8, b2: u8, b3: u8) -> u32 {
    (b0 + 256 * b1 + 65536 * b2 + 16777216 * b3) as u32
}

/// The bytes of a sequence of words, word after word.
pub open spec fn words_bytes(words: Seq<u32>) -> Seq<u8>
    decreases words.len(),
{
    if words.len() == 0 {
        Seq::empty()
    } else {
        words_bytes(words.drop_last()) + word_bytes(words.last())
    }
}

/// The word that the bytes from `at` on hold: that of the four bytes there,
/// and 0 where fewer than four are left.
pub open spec fn word_at(bytes: Seq<u8>, at: int) -> u32 {
    if 0 <= at && at + 4 <= bytes.len() {
        word_of(bytes[at], bytes[at + 1], bytes[at + 2], bytes[at + 3])
    } else {
        0
    }
}

/// The number of words that bytes hold: one for every four bytes, and one
/// more for what is left over.
pub open spec fn word_count(bytes: Seq<u8>) -> int {
    (bytes.len() as int + 3) / 4
}

/// The words that bytes hold.
pub open spec fn bytes_words(bytes: Seq<u8>) -> Seq<u32> {
    Seq::new(word_count(bytes) as nat, |k: int| word_at(bytes, 4 * k))
}

/// The four bytes of a word give the word again.
pub proof fn lemma_word_round_trip(w: u32)
    ensures
        word_bytes(w).len() == 4,
        word_of(word_bytes(w)[0], word_bytes(w)[1], word_bytes(w)[2], word_bytes(w)[3]) == w,
{
}

/// The bytes of words are four for each word, and the bytes of the word at
/// `k` stand from `4 * k` on.
pub proof fn lemma_words_bytes(words: Seq<u32>, k: int)
    requires
        0 <= k < words.len(),
    ensures
        words_bytes(words).len() == 4 * words.len(),
        words_bytes(words).subrange(4 * k, 4 * k + 4) == word_bytes(words[k]),
    decreases words.len(),
{
    lemma_words_bytes_len(words);
    let shorter = words.drop_last();
    lemma_words_bytes_len(shorter);
    if k < words.len() - 1 {
        lemma_words_bytes(shorter, k);
        assert(shorter[k] == words[k]);
        assert(words_bytes(words).subrange(4 * k, 4 * k + 4) =~= words_bytes(shorter).subrange(
            4 * k,
            4 * k + 4,
        ));
    } else {
        assert(words_bytes(words).subrange(4 * k, 4 * k + 4) =~= word_bytes(words.last()));
    }
}

/// The bytes of words are four for each word.
pub proof fn lemma_words_bytes_len(words: Seq<u32>)
    ensures
        words_bytes(words).len() == 4 * words.len(),
    decreases words.len(),
{
    if words.len() > 0 {
        lemma_words_bytes_len(words.drop_last());
    }
}

/// An embedding that is stored and read again is the same, number for
/// number and bit for bit.
pub proof fn lemma_embedding_round_trip(words: Seq<u32>)
    ensures
        bytes_words(words_bytes(words)) == words,
{
    let bytes = words_bytes(words);
    lemma_words_bytes_len(words);
    assert forall|k: int| 0 <= k < words.len() implies #[trigger] bytes_words(bytes)[k]
        == words[k] by {
        lemma_words_bytes(words, k);
        lemma_word_round_trip(words[k]);
        let part = bytes.subrange(4 * k, 4 * k + 4);
        assert(part[0] == bytes[4 * k]);
        assert(part[1] == bytes[4 * k + 1]);
        assert(part[2] == bytes[4 * k + 2]);
        assert(part[3] == bytes[4 * k + 3]);
    }
    assert(bytes_words(bytes) =~= words);
}

/// The bytes under which an embedding is stored.
pub fn embedding_to_bytes(embedding: &Vec<u32>) -> (bytes: Vec<u8>)
    ensures
        bytes@ == words_bytes(embedding@),
{
    let mut bytes: Vec<u8> = Vec::new();
    let mut i: usize = 0;
    assert(embedding@.take(0) =~= Seq::<u32>::empty());
    while i < embedding.len()
        invariant
            i <= embedding.len(),
            bytes@ == words_bytes(embedding@.take(i as int)),
        decreases embedding.len() - i,
    {
        let w = embedding[i];
        proof {
            let upto = embedding@.take(i + 1);
            assert(upto.drop_last() =~= embedding@.take(i as int));
            assert(upto.last() == w);
        }
        let ghost before = bytes@;
        bytes.push((w % 256) as u8);
        bytes.push(((w / 256) % 256) as u8);
        bytes.push(((w / 65536) % 256) as u8);
        bytes.push((w / 16777216) as u8);
        assert(bytes@ =~= before + word_bytes(w));
        i += 1;
    }
    proof {
        assert(embedding@.take(embedding@.len() as int) =~= embedding@);
    }
    bytes
}

/// The embedding that stored bytes hold.
pub fn bytes_to_embedding(bytes: &[u8]) -> (embedding: Vec<u32>)
    ensures
        embedding@ == bytes_words(bytes@),
{
    let mut embedding: Vec<u32> = Vec::new();
    let mut at: usize = 0;
    while at < bytes.len()
        invariant
            at % 4 == 0,
            embedding@.len() == at / 4,
            at / 4 <= word_count(bytes@),
            at >= bytes.len() ==> at / 4 == word_count(bytes@),
            forall|k: int| 0 <= k < embedding@.len() ==> #[trigger] embedding@[k] == word_at(bytes@, 4 * k),
        decreases bytes.len() - at,
    {
        if bytes.len() - at < 4 {
            embedding.push(0);
            assert(embedding@.len() == word_count(bytes@));
            assert(embedding@ =~= bytes_words(bytes@));
            return embedding;
        }
        let b0: u32 = bytes[at] as u32;
        let b1: u32 = bytes[at + 1] as u32;
        let b2: u32 = bytes[at + 2] as u32;
        let b3: u32 = bytes[at + 3] as u32;
        embedding.push(b0 + 256 * b1 + 65536 * b2 + 16777216 * b3);
        at += 4;
    }
    assert(embedding@ =~= bytes_words(bytes@));
    embedding
}

} // verus!
