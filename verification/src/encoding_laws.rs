//! What encoded bytes and texts stand for.
use crate::encoding::{
    base64_digit, base64_group, base64_number, base64_text, fnv1a64_of, le_byte, le_bytes, le_word,
    le_words,
};
use crate::sha256::{
    added, be_bytes, be_word, hashed, hex_state, initial_state, padded, rotated, rounds, schedule,
    sha256, HashState,
};
use crate::text::{
    bullets, decimal, hex_digit, hex_double_word, hex_word, joined, listed, optional_decimal,
    signed_decimal, truth, widened,
};
use vstd::prelude::*;

verus! {

// ---------------------------------------------------------------------------
// SHA-256
// ---------------------------------------------------------------------------

/// The number that bytes stand for, the first one weighing most.
pub open spec fn number_of(bytes: Seq<u8>) -> int
    decreases bytes.len(),
{
    if bytes.len() == 0 {
        0
    } else {
        256 * number_of(bytes.drop_last()) + bytes.last()
    }
}

/// Eight bytes as a sum.
proof fn lemma_number_of_eight(b: Seq<u8>)
    requires
        b.len() == 8,
    ensures
        number_of(b) == 0x100_0000_0000_0000 * b[0] + 0x1_0000_0000_0000 * b[1] + 0x100_0000_0000
            * b[2] + 0x1_0000_0000 * b[3] + 0x100_0000 * b[4] + 0x1_0000 * b[5] + 0x100 * b[6]
            + b[7],
{
    let b7 = b.drop_last();
    let b6 = b7.drop_last();
    let b5 = b6.drop_last();
    let b4 = b5.drop_last();
    let b3 = b4.drop_last();
    let b2 = b3.drop_last();
    let b1 = b2.drop_last();
    assert(number_of(b1) == b[0]) by {
        assert(number_of(b1.drop_last()) == 0);
    }
    assert(number_of(b2) == 256 * number_of(b1) + b[1]);
    assert(number_of(b3) == 256 * number_of(b2) + b[2]);
    assert(number_of(b4) == 256 * number_of(b3) + b[3]);
    assert(number_of(b5) == 256 * number_of(b4) + b[4]);
    assert(number_of(b6) == 256 * number_of(b5) + b[5]);
    assert(number_of(b7) == 256 * number_of(b6) + b[6]);
}

/// Eight big-endian bytes are the number that they were made from.
proof fn lemma_be_bytes(value: u64)
    ensures
        number_of(be_bytes(value)) == value,
{
    let b = be_bytes(value);
    lemma_number_of_eight(b);
    assert(value == 0x100_0000_0000_0000 * ((value >> 56) as u8) + 0x1_0000_0000_0000 * ((value
        >> 48) as u8) + 0x100_0000_0000 * ((value >> 40) as u8) + 0x1_0000_0000 * ((value
        >> 32) as u8) + 0x100_0000 * ((value >> 24) as u8) + 0x1_0000 * ((value >> 16) as u8)
        + 0x100 * ((value >> 8) as u8) + ((value >> 0) as u8)) by (bit_vector);
}

/// A padded message is the message, the byte 0x80, zeros, and in its last eight
/// bytes, read as one big-endian number, the length of the message in bits. It
/// is a whole number of 64-byte blocks, with no block more than that takes.
pub proof fn law_padding_holds_the_length(bytes: Seq<u8>)
    requires
        bytes.len() * 8 <= u64::MAX,
    ensures
        ({
            let data = padded(bytes);
            let (n, end) = (bytes.len() as int, data.len() - 8);
            &&& data.take(n) == bytes
            &&& n < end
            &&& data[n] == 0x80
            &&& forall|i: int| n < i < end ==> #[trigger] data[i] == 0
            &&& number_of(data.skip(end)) == 8 * n
            &&& data.len() % 64 == 0
            &&& data.len() < n + 9 + 64
        }),
{
    let data = padded(bytes);
    let (n, end) = (bytes.len() as int, data.len() - 8);
    let bits = (bytes.len() * 8) as u64;
    assert(data.take(n) =~= bytes);
    assert(data.skip(end) =~= be_bytes(bits));
    lemma_be_bytes(bits);
}

/// Rotating right moves the low bits to the top: of `x = high * 2^n + low` it
/// makes `low * 2^(32 - n) + high`.
pub proof fn law_rotation_moves_low_bits_up(x: u32, n: u32)
    requires
        0 < n < 32,
    ensures
        rotated(x, n) == (x >> n) + ((x << ((32 - n) as u32))),
        rotated(rotated(x, n), (32 - n) as u32) == x,
{
    let m = (32 - n) as u32;
    assert((x >> n) | (x << m) == (x >> n) + (x << m)) by (bit_vector)
        requires
            0 < n < 32,
            m == 32 - n,
    ;
    let y = (x >> n) | (x << m);
    assert(((y >> m) | (y << n)) == x) by (bit_vector)
        requires
            0 < n < 32,
            m == 32 - n,
            y == (x >> n) | (x << m),
    ;
    assert((32 - m) as u32 == n);
}

/// The schedule of a block only reads that block.
proof fn lemma_schedule_of_block(data: Seq<u8>, base: int, t: nat)
    requires
        0 <= base,
        base + 64 <= data.len(),
    ensures
        schedule(data, base, t) == schedule(data.subrange(base, base + 64), 0, t),
    decreases t,
{
    let block = data.subrange(base, base + 64);
    if t < 16 {
        let i = 4 * t as int;
        assert(block[i] == data[base + i] && block[i + 1] == data[base + i + 1]);
        assert(block[i + 2] == data[base + i + 2] && block[i + 3] == data[base + i + 3]);
        assert(be_word(data, base + i) == be_word(block, 0 + i));
    } else {
        lemma_schedule_of_block(data, base, (t - 15) as nat);
        lemma_schedule_of_block(data, base, (t - 2) as nat);
        lemma_schedule_of_block(data, base, (t - 16) as nat);
        lemma_schedule_of_block(data, base, (t - 7) as nat);
    }
}

/// The rounds over a block only read that block.
proof fn lemma_rounds_of_block(s: HashState, data: Seq<u8>, base: int, t: nat)
    requires
        0 <= base,
        base + 64 <= data.len(),
    ensures
        rounds(s, data, base, t) == rounds(s, data.subrange(base, base + 64), 0, t),
    decreases t,
{
    if t > 0 {
        lemma_rounds_of_block(s, data, base, (t - 1) as nat);
        lemma_schedule_of_block(data, base, (t - 1) as nat);
    }
}

/// Every block is taken in alike, whatever stands before it or after it: the
/// state after it depends on the state before it and on its 64 bytes alone.
/// The first block starts from the initial state.
pub proof fn law_blocks_are_taken_in_alike(
    data: Seq<u8>,
    i: nat,
    other: Seq<u8>,
    j: nat,
)
    requires
        64 * i + 64 <= data.len(),
        64 * j + 64 <= other.len(),
        data.subrange(64 * i as int, 64 * i as int + 64) == other.subrange(64 * j as int, 64 * j as int + 64),
    ensures
        hashed(data, 0) == initial_state(),
        hashed(data, i) == hashed(other, j) ==> hashed(data, i + 1) == hashed(other, j + 1),
        ({
            let s = hashed(data, i);
            let block = data.subrange(64 * i as int, 64 * i as int + 64);
            hashed(data, i + 1) == added(s, rounds(s, block, 0, 64))
        }),
{
    lemma_rounds_of_block(hashed(data, i), data, 64 * i as int, 64);
    lemma_rounds_of_block(hashed(other, j), other, 64 * j as int, 64);
}

/// The digest takes in every block of the padded message, and nothing else.
pub proof fn law_digest_takes_in_every_block(bytes: Seq<u8>, blocks: nat)
    requires
        64 * blocks == padded(bytes).len(),
    ensures
        sha256(bytes) == hashed(padded(bytes), blocks),
{
}

/// A big-endian word is the number that its four bytes stand for.
pub proof fn law_words_are_big_endian(bytes: Seq<u8>, i: int)
    requires
        0 <= i,
        i + 4 <= bytes.len(),
    ensures
        be_word(bytes, i) == number_of(bytes.subrange(i, i + 4)),
{
    let b = bytes.subrange(i, i + 4);
    let b3 = b.drop_last();
    let b2 = b3.drop_last();
    let b1 = b2.drop_last();
    assert(number_of(b1) == b[0]) by {
        assert(number_of(b1.drop_last()) == 0);
    }
    assert(number_of(b2) == 256 * number_of(b1) + b[1]);
    assert(number_of(b3) == 256 * number_of(b2) + b[2]);
    assert(number_of(b) == 256 * number_of(b3) + b[3]);
}

// ---------------------------------------------------------------------------
// Fingerprints
// ---------------------------------------------------------------------------

/// The fingerprint of no bytes is the offset basis, and one more byte is mixed
/// in and multiplied by the prime, in 64 bits.
pub proof fn law_fingerprints_grow_bytewise(bytes: Seq<u8>, byte: u8)
    ensures
        fnv1a64_of(Seq::empty()) == 14_695_981_039_346_656_037,
        fnv1a64_of(bytes.push(byte)) == ((fnv1a64_of(bytes) ^ (byte as u64)) * 1_099_511_628_211)
            % 0x1_0000_0000_0000_0000,
{
    assert(bytes.push(byte).drop_last() =~= bytes);
    assert(bytes.push(byte).last() == byte);
}

// ---------------------------------------------------------------------------
// Little-endian words
// ---------------------------------------------------------------------------

/// A word is stored low byte first, and read the same way.
pub proof fn law_words_are_little_endian(words: Seq<u32>, bytes: Seq<u8>, i: int)
    ensures
        le_bytes(words).len() == 4 * words.len(),
        0 <= i < words.len() ==> {
            let w = words[i] as int;
            let b = le_bytes(words);
            &&& b[4 * i] == w % 256
            &&& b[4 * i + 1] == w / 256 % 256
            &&& b[4 * i + 2] == w / 256 / 256 % 256
            &&& b[4 * i + 3] == w / 256 / 256 / 256
        },
        le_words(bytes).len() == bytes.len() / 4,
        0 <= i && 4 * i + 4 <= bytes.len() ==> {
            let (b0, b1) = (bytes[4 * i], bytes[4 * i + 1]);
            let (b2, b3) = (bytes[4 * i + 2], bytes[4 * i + 3]);
            le_words(bytes)[i] == b0 + 256 * (b1 + 256 * (b2 + 256 * b3))
        },
{
    if 0 <= i < words.len() {
        let at = 4 * i;
        assert(at / 4 == i && (at + 1) / 4 == i && (at + 2) / 4 == i && (at + 3) / 4 == i);
        assert(at % 4 == 0 && (at + 1) % 4 == 1 && (at + 2) % 4 == 2 && (at + 3) % 4 == 3);
        let w = words[i] as int;
        assert(w / 256 / 256 == w / 0x1_0000);
        assert(w / 256 / 256 / 256 == w / 0x100_0000);
        let b = le_bytes(words);
        assert(b[at] == le_byte(words[i], 0));
        assert(b[at + 1] == le_byte(words[i], 1));
        assert(b[at + 2] == le_byte(words[i], 2));
        assert(b[at + 3] == le_byte(words[i], 3));
    }
    if 0 <= i && 4 * i + 4 <= bytes.len() {
        assert(le_words(bytes)[i] == le_word(bytes, 4 * i));
    }
}

// ---------------------------------------------------------------------------
// base64
// ---------------------------------------------------------------------------

/// The base64 characters in the order of their values.
pub open spec fn alphabet() -> Seq<char> {
    "ABCDEFGHIJKLMNOPQRSTUVWXYZabcdefghijklmnopqrstuvwxyz0123456789+/"@
}

proof fn lemma_alphabet(value: int)
    requires
        0 <= value < 64,
    ensures
        base64_digit(value) == alphabet()[value],
{
    reveal_strlit("ABCDEFGHIJKLMNOPQRSTUVWXYZabcdefghijklmnopqrstuvwxyz0123456789+/");
}

/// The characters of a group, byte by byte.
proof fn lemma_group_characters(group: Seq<u8>)
    requires
        1 <= group.len() <= 3,
    ensures
        ({
            let text = base64_group(group);
            let b0 = group[0] as int;
            let b1 = if group.len() > 1 {
                group[1] as int
            } else {
                0
            };
            let b2 = if group.len() > 2 {
                group[2] as int
            } else {
                0
            };
            &&& text.len() == 4
            &&& text[0] == alphabet()[b0 / 4]
            &&& text[1] == alphabet()[b0 % 4 * 16 + b1 / 16]
            &&& text[2] == (if group.len() > 1 {
                alphabet()[b1 % 16 * 4 + b2 / 64]
            } else {
                '='
            })
            &&& text[3] == (if group.len() > 2 {
                alphabet()[b2 % 64]
            } else {
                '='
            })
        }),
{
    let b0 = group[0] as int;
    let b1 = if group.len() > 1 {
        group[1] as int
    } else {
        0
    };
    let b2 = if group.len() > 2 {
        group[2] as int
    } else {
        0
    };
    let n = base64_number(group);
    assert(n == b0 * 0x1_0000 + b1 * 0x100 + b2);
    assert(n / 0x4_0000 == b0 / 4);
    assert(n / 0x1000 == b0 * 16 + b1 / 16);
    assert((b0 * 16 + b1 / 16) % 64 == b0 % 4 * 16 + b1 / 16);
    assert(n / 64 == b0 * 1024 + b1 * 4 + b2 / 64);
    assert((b0 * 1024 + b1 * 4 + b2 / 64) % 64 == b1 % 16 * 4 + b2 / 64);
    assert(n % 64 == b2 % 64);
    lemma_alphabet(b0 / 4);
    lemma_alphabet(b0 % 4 * 16 + b1 / 16);
    lemma_alphabet(b1 % 16 * 4 + b2 / 64);
    lemma_alphabet(b2 % 64);
}

/// Every three bytes give four characters, six bits each from the top; of the
/// last one or two bytes, what is left over is padding. `at` is the group.
pub proof fn law_base64_takes_six_bits_each(bytes: Seq<u8>, at: int)
    requires
        0 <= at,
        3 * at < bytes.len(),
    ensures
        ({
            let text = base64_text(bytes);
            let left = bytes.len() - 3 * at;
            let b0 = bytes[3 * at] as int;
            let b1 = if left > 1 {
                bytes[3 * at + 1] as int
            } else {
                0
            };
            let b2 = if left > 2 {
                bytes[3 * at + 2] as int
            } else {
                0
            };
            &&& text.len() == 4 * ((bytes.len() + 2) / 3)
            &&& text[4 * at] == alphabet()[b0 / 4]
            &&& text[4 * at + 1] == alphabet()[b0 % 4 * 16 + b1 / 16]
            &&& text[4 * at + 2] == (if left > 1 {
                alphabet()[b1 % 16 * 4 + b2 / 64]
            } else {
                '='
            })
            &&& text[4 * at + 3] == (if left > 2 {
                alphabet()[b2 % 64]
            } else {
                '='
            })
        }),
    decreases bytes.len(),
{
    let text = base64_text(bytes);
    if bytes.len() < 3 {
        lemma_group_characters(bytes);
    } else {
        lemma_group_characters(bytes.take(3));
        let rest = bytes.skip(3);
        assert(text == base64_group(bytes.take(3)) + base64_text(rest));
        if rest.len() > 0 {
            law_base64_takes_six_bits_each(
                rest,
                if at > 0 {
                    at - 1
                } else {
                    0
                },
            );
        }
        if at > 0 {
            let before = at - 1;
            assert(rest[3 * before] == bytes[3 * at]);
            assert(3 * before + 1 < rest.len() ==> rest[3 * before + 1] == bytes[3 * at + 1]);
            assert(3 * before + 2 < rest.len() ==> rest[3 * before + 2] == bytes[3 * at + 2]);
            let tail = base64_text(rest);
            assert(text[4 * at] == tail[4 * before]);
            assert(text[4 * at + 1] == tail[4 * before + 1]);
            assert(text[4 * at + 2] == tail[4 * before + 2]);
            assert(text[4 * at + 3] == tail[4 * before + 3]);
        }
    }
}

// ---------------------------------------------------------------------------
// Numbers as text
// ---------------------------------------------------------------------------

/// The hexadecimal digits in the order of their values.
pub open spec fn hex_alphabet() -> Seq<char> {
    "0123456789abcdef"@
}

/// A word in hexadecimal is eight digits, the highest first.
pub proof fn law_hex_words(value: u32)
    ensures
        hex_word(value).len() == 8,
        hex_word(value)[0] == hex_alphabet()[(value / 0x1000_0000) as int],
        hex_word(value)[1] == hex_alphabet()[(value / 0x100_0000 % 16) as int],
        hex_word(value)[2] == hex_alphabet()[(value / 0x10_0000 % 16) as int],
        hex_word(value)[3] == hex_alphabet()[(value / 0x1_0000 % 16) as int],
        hex_word(value)[4] == hex_alphabet()[(value / 0x1000 % 16) as int],
        hex_word(value)[5] == hex_alphabet()[(value / 0x100 % 16) as int],
        hex_word(value)[6] == hex_alphabet()[(value / 0x10 % 16) as int],
        hex_word(value)[7] == hex_alphabet()[(value % 16) as int],
{
    reveal_strlit("0123456789abcdef");
    assert({
        &&& (value >> 28) & 15 == value / 0x1000_0000
        &&& (value >> 24) & 15 == value / 0x100_0000 % 16
        &&& (value >> 20) & 15 == value / 0x10_0000 % 16
        &&& (value >> 16) & 15 == value / 0x1_0000 % 16
        &&& (value >> 12) & 15 == value / 0x1000 % 16
        &&& (value >> 8) & 15 == value / 0x100 % 16
        &&& (value >> 4) & 15 == value / 0x10 % 16
        &&& (value >> 0) & 15 == value % 16
        &&& value / 0x1000_0000 < 16
    }) by (bit_vector);
    assert(forall|d: int| 0 <= d < 16 ==> #[trigger] hex_digit(d) == hex_alphabet()[d]);
}

/// A double word in hexadecimal is its upper half followed by its lower one.
pub proof fn law_hex_double_words(value: u64, high: u32, low: u32)
    requires
        value == high * 0x1_0000_0000 + low,
    ensures
        hex_double_word(value) == hex_word(high) + hex_word(low),
{
    assert(value >> 32 == high && value & 0xffff_ffff == low) by (bit_vector)
        requires
            value == high * 0x1_0000_0000 + low,
    ;
}

/// A state in hexadecimal is 64 characters, its eight words one after the other.
pub proof fn law_hex_states(s: HashState)
    ensures
        hex_state(s).len() == 64,
        hex_state(s).subrange(0, 8) == hex_word(s.a),
        hex_state(s).subrange(8, 16) == hex_word(s.b),
        hex_state(s).subrange(16, 24) == hex_word(s.c),
        hex_state(s).subrange(24, 32) == hex_word(s.d),
        hex_state(s).subrange(32, 40) == hex_word(s.e),
        hex_state(s).subrange(40, 48) == hex_word(s.f),
        hex_state(s).subrange(48, 56) == hex_word(s.g),
        hex_state(s).subrange(56, 64) == hex_word(s.h),
{
    assert(hex_state(s).subrange(0, 8) =~= hex_word(s.a));
    assert(hex_state(s).subrange(8, 16) =~= hex_word(s.b));
    assert(hex_state(s).subrange(16, 24) =~= hex_word(s.c));
    assert(hex_state(s).subrange(24, 32) =~= hex_word(s.d));
    assert(hex_state(s).subrange(32, 40) =~= hex_word(s.e));
    assert(hex_state(s).subrange(40, 48) =~= hex_word(s.f));
    assert(hex_state(s).subrange(48, 56) =~= hex_word(s.g));
    assert(hex_state(s).subrange(56, 64) =~= hex_word(s.h));
}

/// The number that decimal digits stand for.
pub open spec fn value_of(digits: Seq<char>) -> int
    decreases digits.len(),
{
    if digits.len() == 0 {
        0
    } else {
        10 * value_of(digits.drop_last()) + (digits.last() as int - '0' as int)
    }
}

/// A number in decimal is made of digits that stand for it, without a leading
/// zero, but for zero itself.
pub proof fn law_decimals_stand_for_their_number(value: nat)
    ensures
        decimal(value).len() > 0,
        value_of(decimal(value)) == value,
        forall|i: int| 0 <= i < decimal(value).len() ==> '0' <= #[trigger] decimal(value)[i] <= '9',
        value > 0 ==> decimal(value)[0] != '0',
        value == 0 ==> decimal(value) == seq!['0'],
    decreases value,
{
    let text = decimal(value);
    if value < 10 {
        reveal_with_fuel(value_of, 2);
        assert(text.drop_last() =~= Seq::empty());
    } else {
        law_decimals_stand_for_their_number(value / 10);
        assert(text.drop_last() =~= decimal(value / 10));
    }
}

/// A negative number is a minus sign and its size; another one is its size.
pub proof fn law_signed_decimals(value: nat)
    ensures
        signed_decimal(value as int) == decimal(value),
        value > 0 ==> signed_decimal(-value) == seq!['-'] + decimal(value),
{
    reveal_strlit("-");
    assert("-"@ =~= seq!['-']);
}

/// Optional numbers and truth values are written the way Rust writes them.
pub proof fn law_optional_numbers_and_truth(value: i32)
    ensures
        optional_decimal(Some(value)) == "Some("@ + signed_decimal(value as int) + ")"@,
        optional_decimal(None) == "None"@,
        truth(true) == "true"@,
        truth(false) == "false"@,
{
}

/// A list grows by a comma, a space and the next number; the first number has
/// none before it, and brackets stand around the whole.
pub proof fn law_lists_grow_by_one(values: Seq<u128>, value: u128)
    ensures
        joined(Seq::empty()) == Seq::<char>::empty(),
        values.len() == 0 ==> joined(values.push(value)) == decimal(value as nat),
        values.len() > 0 ==> joined(values.push(value)) == joined(values) + ", "@ + decimal(
            value as nat,
        ),
        listed(values) == "["@ + joined(values) + "]"@,
{
    assert(values.push(value).drop_last() =~= values);
}

/// Widening keeps every number.
pub proof fn law_widening_keeps_numbers(values: Seq<u32>, i: int)
    requires
        0 <= i < values.len(),
    ensures
        widened(values).len() == values.len(),
        widened(values)[i] == values[i],
{
}

/// Bullets are one line for each item, below what stands above them.
pub proof fn law_bullets_grow_by_one(head: Seq<char>, items: Seq<&'static str>, item: &'static str)
    ensures
        bullets(head, Seq::empty()) == head,
        bullets(head, items.push(item)) == bullets(head, items) + "  - "@ + item@ + "\n"@,
{
    assert(items.push(item).drop_last() =~= items);
}

} // verus!
