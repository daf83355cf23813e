use vstd::prelude::*;

verus! {

/// The word whose four bytes are `b0`, `b1`, `b2`, `b3`, the highest first.
pub open spec fn be_word(b0: u8, b1: u8, b2: u8, b3: u8) -> u32 {
    (b0 * 0x100_0000 + b1 * 0x1_0000 + b2 * 0x100 + b3) as u32
}

/// The words of a program image: each run of four bytes is one big-endian
/// word, and bytes after the last whole word do not count.
pub open spec fn words_of(bytes: Seq<u8>) -> Seq<u32> {
    Seq::new(
        (bytes.len() / 4) as nat,
        |i: int| be_word(bytes[4 * i], bytes[4 * i + 1], bytes[4 * i + 2], bytes[4 * i + 3]),
    )
}

/// Decodes a program image into the words that segment 0 is loaded with.
pub fn words_from_bytes(bytes: &[u8]) -> (words: Vec<u32>)
    ensures
        words@ == words_of(bytes@),
{
    let count = bytes.len() / 4;
    let mut words: Vec<u32> = Vec::new();
    let mut i: usize = 0;
    while i < count
        invariant
            count == bytes.len() / 4,
            i <= count,
            words.len() == i,
            forall|k: int| 0 <= k < i ==> words[k] == #[trigger] words_of(bytes@)[k],
        decreases count - i,
    {
        let b0 = bytes[4 * i] as u32;
        let b1 = bytes[4 * i + 1] as u32;
        let b2 = bytes[4 * i + 2] as u32;
        let b3 = bytes[4 * i + 3] as u32;
        words.push(b0 * 0x100_0000 + b1 * 0x1_0000 + b2 * 0x100 + b3);
        i += 1;
    }
    assert(words@ =~= words_of(bytes@));
    words
}

/// The four bytes are the base-256 digits of the word they make, the
/// highest first.
pub proof fn be_word_digits(b0: u8, b1: u8, b2: u8, b3: u8)
    ensures
        be_word(b0, b1, b2, b3) / 0x100_0000 == b0,
        (be_word(b0, b1, b2, b3) / 0x1_0000) % 0x100 == b1,
        (be_word(b0, b1, b2, b3) / 0x100) % 0x100 == b2,
        be_word(b0, b1, b2, b3) % 0x100 == b3,
{
    let word = be_word(b0, b1, b2, b3);
    assert(word / 0x100_0000 == b0 && (word / 0x1_0000) % 0x100 == b1 && (word / 0x100) % 0x100
        == b2 && word % 0x100 == b3) by (bit_vector)
        requires
            word == b0 * 0x100_0000 + b1 * 0x1_0000 + b2 * 0x100 + b3,
    ;
}

/// Every four bytes of the image give one word, in their order.
pub proof fn words_of_reads_every_whole_word(bytes: Seq<u8>, i: int)
    requires
        0 <= i,
        4 * i + 4 <= bytes.len(),
    ensures
        i < words_of(bytes).len(),
        words_of(bytes)[i] == be_word(
            bytes[4 * i],
            bytes[4 * i + 1],
            bytes[4 * i + 2],
            bytes[4 * i + 3],
        ),
        words_of(bytes).len() * 4 <= bytes.len() < words_of(bytes).len() * 4 + 4,
{
}

} // verus!
