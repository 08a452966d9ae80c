//! Fingerprints, base64 and little-endian words.
use vstd::prelude::*;

verus! {

/// The FNV-1a 64 hash of `bytes`.
pub open spec fn fnv1a64_of(bytes: Seq<u8>) -> u64
    decreases bytes.len(),
{
    if bytes.len() == 0 {
        0xcbf2_9ce4_8422_2325
    } else {
        (fnv1a64_of(bytes.drop_last()) ^ (bytes.last() as u64)).wrapping_mul(0x0000_0100_0000_01b3)
    }
}

pub fn fnv1a64(bytes: &[u8]) -> (hash: u64)
    ensures
        hash == fnv1a64_of(bytes@),
{
    let mut hash: u64 = 0xcbf2_9ce4_8422_2325;
    let mut i: usize = 0;
    assert(bytes@.take(0) =~= Seq::empty());
    while i < bytes.len()
        invariant
            i <= bytes@.len(),
            hash == fnv1a64_of(bytes@.take(i as int)),
        decreases bytes@.len() - i,
    {
        assert(bytes@.take(i + 1).drop_last() =~= bytes@.take(i as int));
        hash = (hash ^ (bytes[i] as u64)).wrapping_mul(0x0000_0100_0000_01b3);
        i = i + 1;
    }
    assert(bytes@.take(bytes@.len() as int) =~= bytes@);
    hash
}

// ---------------------------------------------------------------------------
// base64
// ---------------------------------------------------------------------------

/// The base64 character of a six-bit value.
pub open spec fn base64_digit(value: int) -> char {
    if value < 26 {
        (65 + value) as char
    } else if value < 52 {
        (71 + value) as char
    } else if value < 62 {
        (value - 4) as char
    } else if value == 62 {
        '+'
    } else {
        '/'
    }
}

/// The 24-bit number made of up to three bytes, missing ones being zero.
pub open spec fn base64_number(group: Seq<u8>) -> int {
    group[0] * 0x1_0000 + (if group.len() > 1 {
        group[1] * 0x100
    } else {
        0
    }) + (if group.len() > 2 {
        group[2] as int
    } else {
        0
    })
}

/// The four characters of a group of one to three bytes.
pub open spec fn base64_group(group: Seq<u8>) -> Seq<char> {
    let n = base64_number(group);
    seq![
        base64_digit(n / 0x4_0000),
        base64_digit(n / 0x1000 % 64),
        if group.len() > 1 {
            base64_digit(n / 64 % 64)
        } else {
            '='
        },
        if group.len() > 2 {
            base64_digit(n % 64)
        } else {
            '='
        },
    ]
}

/// `bytes` in base64 with padding.
pub open spec fn base64_text(bytes: Seq<u8>) -> Seq<char>
    decreases bytes.len(),
{
    if bytes.len() == 0 {
        Seq::empty()
    } else if bytes.len() < 3 {
        base64_group(bytes)
    } else {
        base64_group(bytes.take(3)) + base64_text(bytes.skip(3))
    }
}

/// Appends one base64 character.
fn push_base64_digit(out: &mut String, value: u32)
    requires
        value < 64,
    ensures
        final(out)@ == old(out)@.push(base64_digit(value as int)),
{
    if value < 26 {
        out.push((65 + value as u8) as char);
    } else if value < 52 {
        out.push((71 + value as u8) as char);
    } else if value < 62 {
        out.push((value as u8 - 4) as char);
    } else if value == 62 {
        out.push('+');
    } else {
        out.push('/');
    }
}

/// Encodes `bytes` in base64 with padding.
pub fn base64(bytes: &[u8]) -> (out: String)
    ensures
        out@ == base64_text(bytes@),
{
    let mut out = String::new();
    let len: usize = bytes.len();
    let mut i: usize = 0;
    assert(bytes@.skip(0) =~= bytes@);
    assert(out@ + base64_text(bytes@) =~= base64_text(bytes@));
    while i < len
        invariant
            i <= len == bytes@.len(),
            out@ + base64_text(bytes@.skip(i as int)) == base64_text(bytes@),
        decreases len - i,
    {
        let ghost rest = bytes@.skip(i as int);
        let ghost before = out@;
        let left: usize = len - i;
        let b0: u32 = bytes[i] as u32;
        let b1: u32 = if left > 1 {
            bytes[i + 1] as u32
        } else {
            0
        };
        let b2: u32 = if left > 2 {
            bytes[i + 2] as u32
        } else {
            0
        };
        let n: u32 = b0 * 0x1_0000 + b1 * 0x100 + b2;
        let ghost group = if left < 3 {
            rest
        } else {
            rest.take(3)
        };
        assert(n == base64_number(group));
        push_base64_digit(&mut out, n / 0x4_0000);
        push_base64_digit(&mut out, n / 0x1000 % 64);
        if left > 1 {
            push_base64_digit(&mut out, n / 64 % 64);
        } else {
            out.push('=');
        }
        if left > 2 {
            push_base64_digit(&mut out, n % 64);
        } else {
            out.push('=');
        }
        assert(out@ =~= before + base64_group(group));
        if left < 3 {
            assert(bytes@.skip(len as int) =~= Seq::empty());
            assert(out@ + base64_text(bytes@.skip(len as int)) =~= out@);
            i = len;
        } else {
            assert(rest.skip(3) =~= bytes@.skip(i + 3));
            assert(out@ + base64_text(bytes@.skip(i + 3)) =~= before + base64_text(rest));
            i = i + 3;
        }
    }
    assert(bytes@.skip(len as int) =~= Seq::empty());
    assert(out@ + base64_text(bytes@.skip(len as int)) =~= out@);
    out
}

/// The six-bit value of a base64 character.
pub open spec fn base64_value(c: char) -> int {
    if 'A' <= c <= 'Z' {
        c as int - 65
    } else if 'a' <= c <= 'z' {
        c as int - 71
    } else if '0' <= c <= '9' {
        c as int + 4
    } else if c == '+' {
        62
    } else {
        63
    }
}

/// The bytes of one group of four characters.
pub open spec fn base64_decode_group(text: Seq<char>) -> Seq<u8> {
    let n = base64_value(text[0]) * 0x4_0000 + base64_value(text[1]) * 0x1000 + (if text[2] == '=' {
        0
    } else {
        base64_value(text[2]) * 64
    }) + (if text[3] == '=' {
        0
    } else {
        base64_value(text[3])
    });
    let b0 = (n / 0x1_0000) as u8;
    let b1 = (n / 0x100 % 0x100) as u8;
    let b2 = (n % 0x100) as u8;
    if text[2] == '=' {
        seq![b0]
    } else if text[3] == '=' {
        seq![b0, b1]
    } else {
        seq![b0, b1, b2]
    }
}

/// The bytes that a base64 text stands for.
pub open spec fn base64_decoded(text: Seq<char>) -> Seq<u8>
    decreases text.len(),
{
    if text.len() < 4 {
        Seq::empty()
    } else {
        base64_decode_group(text.take(4)) + base64_decoded(text.skip(4))
    }
}

/// A base64 character gives its value back, and is never the padding.
proof fn lemma_base64_digit(value: int)
    requires
        0 <= value < 64,
    ensures
        base64_value(base64_digit(value)) == value,
        base64_digit(value) != '=',
{
}

/// One group decodes to its bytes.
proof fn lemma_base64_group(group: Seq<u8>)
    requires
        1 <= group.len() <= 3,
    ensures
        base64_decode_group(base64_group(group)) == group,
{
    let b0 = group[0] as int;
    let b1 = if group.len() > 1 {
        group[1] as int
    } else {
        0
    };
    let b2 = if group.len() > 2 {
        group[2] as int
    } else {
        0
    };
    let n = b0 * 0x1_0000 + b1 * 0x100 + b2;
    assert(n == base64_number(group));
    lemma_base64_bits(b0, b1, b2);
    lemma_base64_digit(n / 0x4_0000);
    lemma_base64_digit(n / 0x1000 % 64);
    lemma_base64_digit(n / 64 % 64);
    lemma_base64_digit(n % 64);
    let text = base64_group(group);
    assert(base64_decode_group(text) =~= group);
}

/// Three bytes as one number, cut into six-bit digits and put together again.
proof fn lemma_base64_bits(b0: int, b1: int, b2: int)
    requires
        0 <= b0 < 256,
        0 <= b1 < 256,
        0 <= b2 < 256,
    ensures
        ({
            let n = b0 * 0x1_0000 + b1 * 0x100 + b2;
            &&& 0 <= n / 0x4_0000 < 64
            &&& n == n / 0x4_0000 * 0x4_0000 + n / 0x1000 % 64 * 0x1000 + n / 64 % 64 * 64 + n % 64
            &&& n / 0x1_0000 == b0
            &&& n / 0x100 % 0x100 == b1
            &&& n % 0x100 == b2
            &&& b2 == 0 ==> n % 64 == 0
            &&& b1 == 0 && b2 == 0 ==> n / 64 % 64 == 0
        }),
{
    let n = (b0 * 0x1_0000 + b1 * 0x100 + b2) as u32;
    let (c0, c1, c2) = (b0 as u32, b1 as u32, b2 as u32);
    assert({
        &&& n / 0x4_0000 < 64
        &&& n == n / 0x4_0000 * 0x4_0000 + n / 0x1000 % 64 * 0x1000 + n / 64 % 64 * 64 + n % 64
        &&& n / 0x1_0000 == c0
        &&& n / 0x100 % 0x100 == c1
        &&& n % 0x100 == c2
        &&& c2 == 0 ==> n % 64 == 0
        &&& c1 == 0 && c2 == 0 ==> n / 64 % 64 == 0
    }) by (bit_vector)
        requires
            c0 < 256,
            c1 < 256,
            c2 < 256,
            n == c0 * 0x1_0000 + c1 * 0x100 + c2,
    ;
}

/// Decoding what [`base64`] produced gives the bytes back.
pub proof fn law_base64_round_trip(bytes: Seq<u8>)
    ensures
        base64_decoded(base64_text(bytes)) == bytes,
    decreases bytes.len(),
{
    let text = base64_text(bytes);
    if bytes.len() == 0 {
    } else if bytes.len() < 3 {
        lemma_base64_group(bytes);
        assert(text.take(4) =~= text);
        assert(text.skip(4) =~= Seq::empty());
        assert(base64_decoded(text.skip(4)) =~= Seq::empty());
        assert(base64_decoded(text) =~= bytes);
    } else {
        lemma_base64_group(bytes.take(3));
        law_base64_round_trip(bytes.skip(3));
        assert(text.take(4) =~= base64_group(bytes.take(3)));
        assert(text.skip(4) =~= base64_text(bytes.skip(3)));
        assert(bytes.take(3) + bytes.skip(3) =~= bytes);
    }
}

// ---------------------------------------------------------------------------
// Little-endian words
// ---------------------------------------------------------------------------

/// Byte `k` of the little-endian representation of `word`.
pub open spec fn le_byte(word: u32, k: int) -> u8 {
    (if k == 0 {
        word as int % 0x100
    } else if k == 1 {
        word as int / 0x100 % 0x100
    } else if k == 2 {
        word as int / 0x1_0000 % 0x100
    } else {
        word as int / 0x100_0000
    }) as u8
}

/// `words` as wasm stores them in linear memory.
pub open spec fn le_bytes(words: Seq<u32>) -> Seq<u8> {
    Seq::new(4 * words.len(), |i: int| le_byte(words[i / 4], i % 4))
}

/// The little-endian word at byte `i`.
pub open spec fn le_word(bytes: Seq<u8>, i: int) -> u32 {
    (bytes[i] + bytes[i + 1] * 0x100 + bytes[i + 2] * 0x1_0000 + bytes[i + 3] * 0x100_0000) as u32
}

/// The whole words in `bytes`.
pub open spec fn le_words(bytes: Seq<u8>) -> Seq<u32> {
    Seq::new(bytes.len() / 4, |i: int| le_word(bytes, 4 * i))
}

/// Appends one word, low byte first.
pub fn push_le_word(out: &mut Vec<u8>, word: u32)
    ensures
        final(out)@ == old(out)@ + le_bytes(seq![word]),
{
    out.push((word % 0x100) as u8);
    out.push((word / 0x100 % 0x100) as u8);
    out.push((word / 0x1_0000 % 0x100) as u8);
    out.push((word / 0x100_0000) as u8);
    assert(out@ =~= old(out)@ + le_bytes(seq![word]));
}

/// Writes words the way wasm stores them in linear memory.
pub fn words_to_bytes(words: &[u32]) -> (bytes: Vec<u8>)
    ensures
        bytes@ == le_bytes(words@),
{
    let mut bytes: Vec<u8> = Vec::new();
    let mut i: usize = 0;
    assert(bytes@ =~= le_bytes(words@.take(0)));
    while i < words.len()
        invariant
            i <= words@.len(),
            bytes@ == le_bytes(words@.take(i as int)),
        decreases words@.len() - i,
    {
        push_le_word(&mut bytes, words[i]);
        i = i + 1;
        assert(bytes@ =~= le_bytes(words@.take(i as int)));
    }
    assert(words@.take(words@.len() as int) =~= words@);
    bytes
}

/// Reads whole words out of a stretch of wasm linear memory; up to three bytes
/// beyond the last one are left over.
pub fn bytes_to_words(bytes: &[u8]) -> (words: Vec<u32>)
    ensures
        words@ == le_words(bytes@),
{
    let mut words: Vec<u32> = Vec::new();
    let len: usize = bytes.len();
    let count: usize = len / 4;
    let mut i: usize = 0;
    while i < count
        invariant
            i <= count,
            len == bytes@.len(),
            count == len / 4,
            words@ == le_words(bytes@).take(i as int),
        decreases count - i,
    {
        let at: usize = 4 * i;
        let word: u32 = bytes[at] as u32 + bytes[at + 1] as u32 * 0x100 + bytes[at + 2] as u32
            * 0x1_0000 + bytes[at + 3] as u32 * 0x100_0000;
        words.push(word);
        i = i + 1;
        assert(words@ =~= le_words(bytes@).take(i as int));
    }
    assert(words@ =~= le_words(bytes@));
    words
}

/// The four bytes of a word put together again.
proof fn lemma_word_bytes(word: u32)
    ensures
        le_byte(word, 0) + le_byte(word, 1) * 0x100 + le_byte(word, 2) * 0x1_0000 + le_byte(word, 3)
            * 0x100_0000 == word,
{
    let w = word as int;
    assert(w == w % 0x100 + w / 0x100 % 0x100 * 0x100 + w / 0x1_0000 % 0x100 * 0x1_0000 + w
        / 0x100_0000 * 0x100_0000) by {
        assert(w / 0x100 / 0x100 == w / 0x1_0000);
        assert(w / 0x1_0000 / 0x100 == w / 0x100_0000);
    }
}

/// Words written to linear memory read back as themselves.
pub proof fn law_words_round_trip(words: Seq<u32>)
    ensures
        le_words(le_bytes(words)) == words,
{
    let bytes = le_bytes(words);
    assert forall|i: int| 0 <= i < words.len() implies le_word(bytes, 4 * i) == words[i] by {
        lemma_word_bytes(words[i]);
        let at = 4 * i;
        assert(at / 4 == i && (at + 1) / 4 == i && (at + 2) / 4 == i && (at + 3) / 4 == i);
        assert(at % 4 == 0 && (at + 1) % 4 == 1 && (at + 2) % 4 == 2 && (at + 3) % 4 == 3);
        assert(bytes[at] == le_byte(words[i], 0));
        assert(bytes[at + 1] == le_byte(words[i], 1));
        assert(bytes[at + 2] == le_byte(words[i], 2));
        assert(bytes[at + 3] == le_byte(words[i], 3));
    }
    assert(le_words(bytes) =~= words);
}

} // verus!
