//! URL-safe base64 without padding, as a pair of mathematical functions
//! between bytes and text, the proof that each undoes the other, and the two
//! calls into the `base64` crate that compute them.
use vstd::prelude::*;

verus! {

/// The character that stands for the six-bit value `v`:
/// `A`-`Z`, `a`-`z`, `0`-`9`, `-`, `_`.
pub open spec fn symbol(v: int) -> char {
    if v < 26 {
        (v + 65) as char
    } else if v < 52 {
        (v + 71) as char
    } else if v < 62 {
        (v - 4) as char
    } else if v == 62 {
        '-'
    } else {
        '_'
    }
}

/// The six-bit value that `c` stands for, where `c` is of the alphabet.
pub open spec fn value_of(c: char) -> Option<int> {
    if 'A' <= c && c <= 'Z' {
        Some(c as int - 65)
    } else if 'a' <= c && c <= 'z' {
        Some(c as int - 71)
    } else if '0' <= c && c <= '9' {
        Some(c as int + 4)
    } else if c == '-' {
        Some(62)
    } else if c == '_' {
        Some(63)
    } else {
        None
    }
}

/// The byte at position `i`, and zero past the end: the text is read as if
/// the input were followed by zero bits.
pub open spec fn octet(bytes: Seq<u8>, i: int) -> int {
    if 0 <= i < bytes.len() {
        bytes[i] as int
    } else {
        0
    }
}

/// The `j`-th group of six bits of the input, taken from the most
/// significant bit of the first byte onwards.
pub open spec fn sextet(bytes: Seq<u8>, j: int) -> int {
    let k = (j / 4) * 3;
    let r = j % 4;
    if r == 0 {
        octet(bytes, k) / 4
    } else if r == 1 {
        (octet(bytes, k) % 4) * 16 + octet(bytes, k + 1) / 16
    } else if r == 2 {
        (octet(bytes, k + 1) % 16) * 4 + octet(bytes, k + 2) / 64
    } else {
        octet(bytes, k + 2) % 64
    }
}

/// How many characters encode `n` bytes: one per started group of six bits.
pub open spec fn encoded_len(n: nat) -> nat {
    ((4 * n + 2) / 3) as nat
}

/// The text of `bytes`.
#[verifier::opaque]
pub open spec fn encode_spec(bytes: Seq<u8>) -> Seq<char> {
    Seq::new(encoded_len(bytes.len()), |j: int| symbol(sextet(bytes, j)))
}

/// The six-bit value at position `j` of a text, and zero where the character
/// is not of the alphabet.
pub open spec fn digit(text: Seq<char>, j: int) -> int {
    match value_of(text[j]) {
        Some(v) => v,
        None => 0,
    }
}

/// How many whole bytes `m` characters carry.
pub open spec fn decoded_len(m: nat) -> nat {
    ((3 * m) / 4) as nat
}

/// The `i`-th byte that a text carries: eight bits out of two neighbouring
/// characters.
pub open spec fn carried(text: Seq<char>, i: int) -> int {
    let j = (i / 3) * 4 + i % 3;
    let r = i % 3;
    if r == 0 {
        digit(text, j) * 4 + digit(text, j + 1) / 16
    } else if r == 1 {
        (digit(text, j) % 16) * 16 + digit(text, j + 1) / 4
    } else {
        (digit(text, j) % 4) * 64 + digit(text, j + 1)
    }
}

/// A text is well formed when every character is of the alphabet, its
/// length is not one past a multiple of four, and the bits of its last
/// character that belong to no whole byte are zero.
pub open spec fn well_formed(text: Seq<char>) -> bool {
    &&& forall|j: int| 0 <= j < text.len() ==> (#[trigger] value_of(text[j])) is Some
    &&& text.len() % 4 != 1
    &&& text.len() % 4 == 2 ==> digit(text, text.len() - 1) % 16 == 0
    &&& text.len() % 4 == 3 ==> digit(text, text.len() - 1) % 4 == 0
}

/// The bytes that `text` stands for, where it is well formed.
#[verifier::opaque]
pub open spec fn decode_spec(text: Seq<char>) -> Option<Seq<u8>> {
    if well_formed(text) {
        Some(Seq::new(decoded_len(text.len()), |i: int| carried(text, i) as u8))
    } else {
        None
    }
}

/// The text of `n` bytes has `encoded_len(n)` characters, every one of the
/// alphabet.
pub proof fn lemma_encoded_text(bytes: Seq<u8>)
    ensures
        encode_spec(bytes).len() == encoded_len(bytes.len()),
        forall|j: int|
            0 <= j < encode_spec(bytes).len() ==> value_of(#[trigger] encode_spec(bytes)[j])
                is Some,
{
    lemma_digits_of_text(bytes);
}

/// Every group of six bits is below 64.
pub proof fn lemma_sextet_range(bytes: Seq<u8>, j: int)
    requires
        0 <= j,
    ensures
        0 <= sextet(bytes, j) < 64,
{
}

/// A six-bit value is read back from its character.
pub proof fn lemma_value_of_symbol(v: int)
    requires
        0 <= v < 64,
    ensures
        value_of(symbol(v)) == Some(v),
{
}

/// A character of the alphabet is the character of its value.
pub proof fn lemma_symbol_of_value(c: char)
    requires
        value_of(c) is Some,
    ensures
        0 <= value_of(c)->0 < 64,
        symbol(value_of(c)->0) == c,
{
}

/// Three bytes cut into four groups of six bits, and the groups joined
/// again, are the three bytes.
proof fn lemma_cut_and_join(b0: int, b1: int, b2: int)
    requires
        0 <= b0 < 256,
        0 <= b1 < 256,
        0 <= b2 < 256,
    ensures
        ({
            let s0 = b0 / 4;
            let s1 = (b0 % 4) * 16 + b1 / 16;
            let s2 = (b1 % 16) * 4 + b2 / 64;
            let s3 = b2 % 64;
            &&& 0 <= s0 < 64 && 0 <= s1 < 64 && 0 <= s2 < 64 && 0 <= s3 < 64
            &&& s0 * 4 + s1 / 16 == b0
            &&& (s1 % 16) * 16 + s2 / 4 == b1
            &&& (s2 % 4) * 64 + s3 == b2
        }),
{
}

/// Four groups of six bits joined into three bytes, and the bytes cut
/// again, are the four groups.
proof fn lemma_join_and_cut(d0: int, d1: int, d2: int, d3: int)
    requires
        0 <= d0 < 64,
        0 <= d1 < 64,
        0 <= d2 < 64,
        0 <= d3 < 64,
    ensures
        ({
            let c0 = d0 * 4 + d1 / 16;
            let c1 = (d1 % 16) * 16 + d2 / 4;
            let c2 = (d2 % 4) * 64 + d3;
            &&& 0 <= c0 < 256 && 0 <= c1 < 256 && 0 <= c2 < 256
            &&& c0 / 4 == d0
            &&& (c0 % 4) * 16 + c1 / 16 == d1
            &&& (c1 % 16) * 4 + c2 / 64 == d2
            &&& c2 % 64 == d3
        }),
{
}

/// The four groups of six bits of the `q`-th run of three bytes.
proof fn lemma_sextets_of_run(bytes: Seq<u8>, q: int)
    requires
        0 <= q,
    ensures
        ({
            let b0 = octet(bytes, 3 * q);
            let b1 = octet(bytes, 3 * q + 1);
            let b2 = octet(bytes, 3 * q + 2);
            &&& sextet(bytes, 4 * q) == b0 / 4
            &&& sextet(bytes, 4 * q + 1) == (b0 % 4) * 16 + b1 / 16
            &&& sextet(bytes, 4 * q + 2) == (b1 % 16) * 4 + b2 / 64
            &&& sextet(bytes, 4 * q + 3) == b2 % 64
        }),
{
    assert((4 * q) / 4 == q && (4 * q) % 4 == 0);
    assert((4 * q + 1) / 4 == q && (4 * q + 1) % 4 == 1);
    assert((4 * q + 2) / 4 == q && (4 * q + 2) % 4 == 2);
    assert((4 * q + 3) / 4 == q && (4 * q + 3) % 4 == 3);
}

/// The character at each position of a text stands for the group of six
/// bits at that position.
proof fn lemma_digits_of_text(bytes: Seq<u8>)
    ensures
        encode_spec(bytes).len() == encoded_len(bytes.len()),
        forall|j: int|
            0 <= j < encode_spec(bytes).len() ==> value_of(#[trigger] encode_spec(bytes)[j])
                == Some(sextet(bytes, j)),
{
    reveal(encode_spec);
    assert forall|j: int| 0 <= j < encode_spec(bytes).len() implies value_of(
        #[trigger] encode_spec(bytes)[j],
    ) == Some(sextet(bytes, j)) by {
        lemma_sextet_range(bytes, j);
        lemma_value_of_symbol(sextet(bytes, j));
    }
}

/// The text of any bytes is well formed.
proof fn lemma_text_well_formed(bytes: Seq<u8>)
    ensures
        well_formed(encode_spec(bytes)),
{
    let text = encode_spec(bytes);
    let n = bytes.len() as int;
    let m = text.len() as int;
    lemma_digits_of_text(bytes);
    assert(m == (4 * n + 2) / 3);
    let q = n / 3;
    lemma_sextets_of_run(bytes, q);
    if m % 4 == 2 {
        assert(n == 3 * q + 1 && m - 1 == 4 * q + 1);
        assert(value_of(text[m - 1]) == Some(sextet(bytes, m - 1)));
        assert(octet(bytes, 3 * q + 1) == 0);
    }
    if m % 4 == 3 {
        assert(n == 3 * q + 2 && m - 1 == 4 * q + 2);
        assert(value_of(text[m - 1]) == Some(sextet(bytes, m - 1)));
        assert(octet(bytes, 3 * q + 2) == 0);
    }
}

/// The text of any bytes is well formed and stands for those bytes.
pub proof fn lemma_decode_encode(bytes: Seq<u8>)
    ensures
        decode_spec(encode_spec(bytes)) == Some(bytes),
{
    let text = encode_spec(bytes);
    let n = bytes.len() as int;
    let m = text.len() as int;
    lemma_digits_of_text(bytes);
    lemma_text_well_formed(bytes);
    reveal(decode_spec);
    assert(m == (4 * n + 2) / 3);
    assert(decoded_len(text.len()) == n);
    let back = decode_spec(text)->0;
    assert forall|i: int| 0 <= i < n implies back[i] == bytes[i] by {
        let q = i / 3;
        let r = i % 3;
        let j = 4 * q + r;
        assert(i == 3 * q + r);
        assert(0 <= j && j + 1 < m);
        lemma_sextets_of_run(bytes, q);
        lemma_cut_and_join(
            octet(bytes, 3 * q),
            octet(bytes, 3 * q + 1),
            octet(bytes, 3 * q + 2),
        );
        assert(value_of(text[j]) == Some(sextet(bytes, j)));
        assert(value_of(text[j + 1]) == Some(sextet(bytes, j + 1)));
        assert(j == (i / 3) * 4 + i % 3);
        assert(carried(text, i) == octet(bytes, i));
    }
    assert(back =~= bytes);
}

/// Every character of a well-formed text stands for a group of six bits.
proof fn lemma_digits_in_range(text: Seq<char>)
    requires
        well_formed(text),
    ensures
        forall|j: int| 0 <= j < text.len() ==> 0 <= #[trigger] digit(text, j) < 64,
{
    assert forall|j: int| 0 <= j < text.len() implies 0 <= #[trigger] digit(text, j) < 64 by {
        assert(value_of(text[j]) is Some);
        lemma_symbol_of_value(text[j]);
    }
}

/// The group of six bits at position `j`, and zero past the end of the text.
spec fn padded_digit(text: Seq<char>, j: int) -> int {
    if 0 <= j < text.len() {
        digit(text, j)
    } else {
        0
    }
}

/// The three bytes of the `q`-th run of four characters of a well-formed
/// text, the text read as if followed by characters of value zero.
proof fn lemma_octets_of_run(text: Seq<char>, q: int)
    requires
        decode_spec(text) is Some,
        0 <= q,
    ensures
        ({
            let bytes = decode_spec(text)->0;
            let d0 = padded_digit(text, 4 * q);
            let d1 = padded_digit(text, 4 * q + 1);
            let d2 = padded_digit(text, 4 * q + 2);
            let d3 = padded_digit(text, 4 * q + 3);
            &&& octet(bytes, 3 * q) == d0 * 4 + d1 / 16
            &&& octet(bytes, 3 * q + 1) == (d1 % 16) * 16 + d2 / 4
            &&& octet(bytes, 3 * q + 2) == (d2 % 4) * 64 + d3
        }),
{
    reveal(decode_spec);
    lemma_digits_in_range(text);
    let bytes = decode_spec(text)->0;
    let m = text.len() as int;
    let n = bytes.len() as int;
    assert(n == (3 * m) / 4);
    let d0 = padded_digit(text, 4 * q);
    let d1 = padded_digit(text, 4 * q + 1);
    let d2 = padded_digit(text, 4 * q + 2);
    let d3 = padded_digit(text, 4 * q + 3);
    assert((3 * q) / 3 == q && (3 * q) % 3 == 0);
    assert((3 * q + 1) / 3 == q && (3 * q + 1) % 3 == 1);
    assert((3 * q + 2) / 3 == q && (3 * q + 2) % 3 == 2);
    if 3 * q < n {
        assert(4 * q + 1 < m);
        assert(0 <= d0 < 64 && 0 <= d1 < 64);
        assert(carried(text, 3 * q) == d0 * 4 + d1 / 16);
        assert(bytes[3 * q] == carried(text, 3 * q) as u8);
    } else {
        assert(4 * q >= m);
    }
    if 3 * q + 1 < n {
        assert(4 * q + 2 < m);
        assert(0 <= d1 < 64 && 0 <= d2 < 64);
        assert(carried(text, 3 * q + 1) == (d1 % 16) * 16 + d2 / 4);
        assert(bytes[3 * q + 1] == carried(text, 3 * q + 1) as u8);
    } else {
        assert(4 * q + 2 >= m);
        if 4 * q + 1 < m {
            assert(m - 1 == 4 * q + 1 && m % 4 == 2);
        }
    }
    if 3 * q + 2 < n {
        assert(4 * q + 3 < m);
        assert(0 <= d2 < 64 && 0 <= d3 < 64);
        assert(carried(text, 3 * q + 2) == (d2 % 4) * 64 + d3);
        assert(bytes[3 * q + 2] == carried(text, 3 * q + 2) as u8);
    } else {
        assert(4 * q + 3 >= m);
        if 4 * q + 2 < m {
            assert(m - 1 == 4 * q + 2 && m % 4 == 3);
        }
    }
}

/// A well-formed text is the text of the bytes it stands for.
pub proof fn lemma_encode_decode(text: Seq<char>)
    requires
        decode_spec(text) is Some,
    ensures
        encode_spec(decode_spec(text)->0) == text,
{
    let bytes = decode_spec(text)->0;
    let m = text.len() as int;
    let n = bytes.len() as int;
    assert(well_formed(text) && n == (3 * m) / 4) by {
        reveal(decode_spec);
    }
    lemma_digits_in_range(text);
    let again = encode_spec(bytes);
    assert(again.len() == m && forall|j: int|
        0 <= j < m ==> #[trigger] again[j] == symbol(sextet(bytes, j))) by {
        reveal(encode_spec);
    }
    assert forall|j: int| 0 <= j < m implies again[j] == text[j] by {
        let q = j / 4;
        let r = j % 4;
        assert(j == 4 * q + r);
        lemma_octets_of_run(text, q);
        lemma_sextets_of_run(bytes, q);
        let d0 = padded_digit(text, 4 * q);
        let d1 = padded_digit(text, 4 * q + 1);
        let d2 = padded_digit(text, 4 * q + 2);
        let d3 = padded_digit(text, 4 * q + 3);
        assert(0 <= d0 < 64 && 0 <= d1 < 64 && 0 <= d2 < 64 && 0 <= d3 < 64);
        lemma_join_and_cut(d0, d1, d2, d3);
        assert(sextet(bytes, j) == digit(text, j));
        assert(value_of(text[j]) is Some);
        lemma_symbol_of_value(text[j]);
    }
    assert(again =~= text);
}

/// The text loses nothing: two byte sequences with the same text are the
/// same sequence.
pub proof fn law_encode_injective(a: Seq<u8>, b: Seq<u8>)
    requires
        encode_spec(a) == encode_spec(b),
    ensures
        a == b,
{
    lemma_decode_encode(a);
    lemma_decode_encode(b);
}

/// The decoder accepts what the encoder writes and nothing else: a text
/// stands for bytes exactly when it is the text of some bytes.
pub proof fn law_decodes_what_encodes(text: Seq<char>)
    ensures
        well_formed(text) <==> exists|bytes: Seq<u8>| encode_spec(bytes) == text,
{
    reveal(decode_spec);
    if well_formed(text) {
        lemma_encode_decode(text);
        assert(encode_spec(decode_spec(text)->0) == text);
    }
    if exists|bytes: Seq<u8>| encode_spec(bytes) == text {
        let bytes = choose|bytes: Seq<u8>| encode_spec(bytes) == text;
        lemma_decode_encode(bytes);
    }
}

/// The error of the `base64` crate's decoder; its cause is not looked into.
#[verifier::external_type_specification]
#[verifier::external_body]
pub struct ExDecodeError(base64::DecodeError);

/// `Engine::encode` of the `base64` crate, on its `URL_SAFE_NO_PAD` engine.
/// Trusted: the string is the unpadded text of `bytes` in the URL-safe
/// alphabet, one character per started group of six bits, the last group
/// filled with zero bits. The crate panics only where the text length does
/// not fit in `usize`.
#[verifier::external_body]
pub(crate) fn encode(bytes: &[u8]) -> (text: String)
    requires
        encoded_len(bytes@.len()) <= usize::MAX,
    ensures
        text@ == encode_spec(bytes@),
{
    base64::Engine::encode(&base64::engine::general_purpose::URL_SAFE_NO_PAD, bytes)
}

/// `Engine::decode` of the `base64` crate, on its `URL_SAFE_NO_PAD` engine.
/// Trusted: the engine rejects a character outside the alphabet (the padding
/// character among them), a length of one past a multiple of four, and a
/// last character with a set bit that belongs to no whole byte; what it
/// accepts it reads eight bits at a time from the first character onwards.
#[verifier::external_body]
pub(crate) fn decode(text: &str) -> (r: Result<Vec<u8>, base64::DecodeError>)
    ensures
        match r {
            Ok(bytes) => decode_spec(text@) == Some(bytes@),
            Err(_) => decode_spec(text@) is None,
        },
{
    base64::Engine::decode(&base64::engine::general_purpose::URL_SAFE_NO_PAD, text)
}

} // verus!
