//! Digests, fingerprints and text forms on known values.
use wasmer_gpu_demo::args::{parse_number, NumberError};
use wasmer_gpu_demo::binomial::binomial;
use wasmer_gpu_demo::encoding::{base64, bytes_to_words, fnv1a64, push_le_word, words_to_bytes};
use wasmer_gpu_demo::sha256::sha256_hex;
use wasmer_gpu_demo::text::{hex16, push_decimal, push_list, push_optional, push_signed};

#[test]
fn sha256_matches_published_vectors() {
    assert_eq!(
        sha256_hex(b""),
        "e3b0c44298fc1c149afbf4c8996fb92427ae41e4649b934ca495991b7852b855"
    );
    assert_eq!(
        sha256_hex(b"abc"),
        "ba7816bf8f01cfea414140de5dae2223b00361a396177a9cb410ff61f20015ad"
    );
    assert_eq!(
        sha256_hex(b"abcdbcdecdefdefgefghfghighijhijkijkljklmklmnlmnomnopnopq"),
        "248d6a61d20638b8e5c026930c3e6039a33ce45964ff2167f6ecedd419db06c1"
    );
    // Lengths around the end of a block, where the padding needs one more.
    for (len, digest) in [
        (55, "9f4390f8d30c2dd92ec9f095b65e2b9ae9b0a925a5258e241c9f1e910f734318"),
        (56, "b35439a4ac6f0948b6d6f9e3c6af0f5f590ce20f1bde7090ef7970686ec6738a"),
        (64, "ffe054fe7ae0cb6dc65c3af9b61d5209f439851db43d0ba5997337df154668eb"),
    ] {
        assert_eq!(sha256_hex(&vec![b'a'; len]), digest);
    }
}

#[test]
fn fnv1a64_matches_published_vectors() {
    assert_eq!(fnv1a64(b""), 0xcbf2_9ce4_8422_2325);
    assert_eq!(fnv1a64(b"a"), 0xaf63_dc4c_8601_ec8c);
    assert_eq!(fnv1a64(b"foobar"), 0x8594_4171_f739_67e8);
    assert_eq!(hex16(0x00ab_0000_0000_0001), "00ab000000000001");
}

#[test]
fn base64_matches_published_vectors() {
    for (bytes, text) in [
        ("", ""),
        ("f", "Zg=="),
        ("fo", "Zm8="),
        ("foo", "Zm9v"),
        ("foob", "Zm9vYg=="),
        ("fooba", "Zm9vYmE="),
        ("foobar", "Zm9vYmFy"),
    ] {
        assert_eq!(base64(bytes.as_bytes()), text);
    }
    assert_eq!(base64(&[0xfb, 0xff, 0xfe]), "+//+");
}

#[test]
fn words_are_little_endian_and_read_back() {
    assert_eq!(words_to_bytes(&[0x0403_0201, 0xff]), [1, 2, 3, 4, 0xff, 0, 0, 0]);
    let words = [0, 1, 0x8000_0000, u32::MAX];
    assert_eq!(bytes_to_words(&words_to_bytes(&words)), words);
    assert_eq!(bytes_to_words(&[1, 0, 0, 0, 9, 9, 9]), [1]);
    let mut bytes = vec![7];
    push_le_word(&mut bytes, 0x0102);
    assert_eq!(bytes, [7, 2, 1, 0, 0]);
}

#[test]
fn binomials_are_exact() {
    assert_eq!((0..=4).map(|k| binomial(4, k)).collect::<Vec<_>>(), [1, 4, 6, 4, 1]);
    assert_eq!(binomial(10, 5), 252);
    assert_eq!(binomial(5, 9), 0);
    assert_eq!(binomial(5, -1), 1);
    assert_eq!((0..4).map(|k| binomial(-2, k)).collect::<Vec<_>>(), [1, -2, 3, -4]);
    assert_eq!((0..=10).map(|k| binomial(10, k)).sum::<i32>(), 1 << 10);
}

#[test]
fn numbers_read_as_they_are_written() {
    for value in [0u64, 7, 10, 4_294_967_295, u64::MAX] {
        let mut text = String::new();
        push_decimal(&mut text, value as u128);
        assert_eq!(text, value.to_string());
        assert_eq!(parse_number(&text, u64::MAX), Ok(value));
    }
    assert_eq!(parse_number("+42", 100), Ok(42));
    assert_eq!(parse_number("007", 7), Ok(7));
    assert_eq!(parse_number("", 100), Err(NumberError::Empty));
    for text in ["+", "-", "-1", "4 ", " 4", "4x", "\u{664}", "++1"] {
        assert_eq!(parse_number(text, 100), Err(NumberError::InvalidDigit), "{text:?}");
    }
    assert_eq!(parse_number("101", 100), Err(NumberError::TooLarge));
    assert_eq!(parse_number("101x", 100), Err(NumberError::TooLarge));
    assert_eq!(parse_number("10x1", 100), Err(NumberError::InvalidDigit));
    for text in ["", "+", "x", "99999999999", "99999999999x", "12", "+12", "0x1"] {
        let ours = parse_number(text, u32::MAX as u64);
        let theirs = text.parse::<u32>();
        assert_eq!(ours.ok(), theirs.clone().ok().map(u64::from));
        if let (Err(ours), Err(theirs)) = (ours, theirs) {
            assert_eq!(ours.message(), theirs.to_string());
        }
    }
}

#[test]
fn reports_spell_numbers_like_the_standard_formats() {
    let mut text = String::new();
    push_signed(&mut text, i32::MIN);
    text.push(' ');
    push_optional(&mut text, Some(-5));
    text.push(' ');
    push_optional(&mut text, None);
    text.push(' ');
    push_list(&mut text, &vec![1, 22, u128::MAX]);
    push_list(&mut text, &vec![]);
    assert_eq!(
        text,
        format!("{} {:?} {:?} {:?}[]", i32::MIN, Some(-5), None::<i32>, vec![1, 22, u128::MAX])
    );
}
