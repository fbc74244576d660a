//! Identifiers: 128-bit values, stored as sixteen bytes and shown as UUID text.
use crate::text::{digit_char, spells};
use vstd::prelude::*;

verus! {

/// Identifier of a workspace.
#[derive(Debug, Clone, Copy, PartialEq, Eq, Structural)]
pub struct WorkspaceId(pub u128);

/// Identifier of a project.
#[derive(Debug, Clone, Copy, PartialEq, Eq, Structural)]
pub struct ProjectId(pub u128);

/// Identifier of a session.
#[derive(Debug, Clone, Copy, PartialEq, Eq, Structural)]
pub struct SessionId(pub u128);

/// Identifier of a page version.
#[derive(Debug, Clone, Copy, PartialEq, Eq, Structural)]
pub struct PageId(pub u128);

/// Identifier of a user.
#[derive(Debug, Clone, Copy, PartialEq, Eq, Structural)]
pub struct UserId(pub u128);

/// Identifier of a handoff.
#[derive(Debug, Clone, Copy, PartialEq, Eq, Structural)]
pub struct HandoffId(pub u128);

/// Identifier of an auto-improve run.
#[derive(Debug, Clone, Copy, PartialEq, Eq, Structural)]
pub struct AutoImproveRunId(pub u128);

/// Identifier of an auto-improve proposal.
#[derive(Debug, Clone, Copy, PartialEq, Eq, Structural)]
pub struct AutoImproveProposalId(pub u128);

/// The namespace in which agents' own session names are turned into identifiers.
pub const NAMESPACE_OID: u128 = 0x6ba7b812_9dad_11d1_80b4_00c04fd430c8;

/// The number that `bytes` spell, the first byte being the most significant.
pub open spec fn big_endian(bytes: Seq<u8>) -> nat
    decreases bytes.len(),
{
    if bytes.len() == 0 {
        0
    } else {
        big_endian(bytes.drop_last()) * 256 + bytes.last() as nat
    }
}

/// The `n` bytes that spell `value`, the first byte being the most significant.
pub open spec fn big_endian_bytes(value: nat, n: nat) -> Seq<u8>
    decreases n,
{
    if n == 0 {
        Seq::empty()
    } else {
        big_endian_bytes(value / 256, (n - 1) as nat).push((value % 256) as u8)
    }
}

/// The hexadecimal digit of `value` that has `places` digits to its right.
pub open spec fn hex_at(value: u128, places: u128) -> u128 {
    (value >> (4 * places) as u128) & 15
}

/// How many hexadecimal digits stand to the right of position `i` of a UUID's text.
pub open spec fn digits_right_of(i: int) -> int {
    if i < 8 {
        31 - i
    } else if i < 13 {
        32 - i
    } else if i < 18 {
        33 - i
    } else if i < 23 {
        34 - i
    } else {
        35 - i
    }
}

/// The hyphenated text of a UUID: thirty-two lower-case hexadecimal digits in
/// groups of eight, four, four, four and twelve.
pub open spec fn hyphenated(value: u128) -> Seq<char> {
    Seq::new(
        36,
        |i: int|
            if i == 8 || i == 13 || i == 18 || i == 23 {
                '-'
            } else {
                digit_char(hex_at(value, digits_right_of(i) as u128) as int)
            },
    )
}

/// The value of a hexadecimal digit, in either letter case.
pub open spec fn hex_value(c: char) -> Option<nat> {
    let u = c as u32;
    if 48 <= u <= 57 {
        Some((u - 48) as nat)
    } else if 97 <= u <= 102 {
        Some((u - 87) as nat)
    } else if 65 <= u <= 70 {
        Some((u - 55) as nat)
    } else {
        None
    }
}

/// The number that hexadecimal digits spell.
pub open spec fn hex_number(digits: Seq<char>) -> Option<nat>
    decreases digits.len(),
{
    if digits.len() == 0 {
        Some(0)
    } else {
        match (hex_number(digits.drop_last()), hex_value(digits.last())) {
            (Some(n), Some(d)) => Some(n * 16 + d),
            _ => None,
        }
    }
}

/// The digits of a UUID's hyphenated text.
pub open spec fn ungrouped(s: Seq<char>) -> Option<Seq<char>> {
    if s.len() == 36 && s[8] == '-' && s[13] == '-' && s[18] == '-' && s[23] == '-' {
        Some(
            s.subrange(0, 8) + s.subrange(9, 13) + s.subrange(14, 18) + s.subrange(19, 23)
                + s.subrange(24, 36),
        )
    } else {
        None
    }
}

/// The digits of a UUID's text: thirty-two digits, or hyphenated, or hyphenated and
/// in braces or behind `urn:uuid:`.
pub open spec fn uuid_digits(text: Seq<char>) -> Option<Seq<char>> {
    if text.len() == 32 {
        Some(text)
    } else if text.len() == 36 {
        ungrouped(text)
    } else if text.len() == 38 && text[0] == '{' && text[37] == '}' {
        ungrouped(text.subrange(1, 37))
    } else if text.len() == 45 && spells(text.take(9), "urn:uuid:"@) {
        ungrouped(text.skip(9))
    } else {
        None
    }
}

/// The UUID that a text spells.
pub open spec fn parsed_uuid(text: Seq<char>) -> Option<u128> {
    match uuid_digits(text) {
        Some(digits) => match hex_number(digits) {
            Some(n) => Some(n as u128),
            None => None,
        },
        None => None,
    }
}

/// What `uuid::Uuid::new_v5` returns for a namespace and a name.
pub uninterp spec fn name_based_uuid(namespace: u128, name: Seq<u8>) -> u128;

/// Calls `uuid::Uuid`'s `Display`, through `to_string`. Trusted: the text is the
/// hyphenated lower-case form.
#[verifier::external_body]
pub(crate) fn uuid_text(value: u128) -> (r: String)
    ensures
        r@ == hyphenated(value),
{
    uuid::Uuid::from_u128(value).to_string()
}

/// Calls `uuid::Uuid::parse_str`. Trusted: a text is taken in the four forms of a
/// UUID, with digits in either letter case, and in no other.
#[verifier::external_body]
pub(crate) fn parse_uuid(text: &str) -> (r: Option<u128>)
    ensures
        r == parsed_uuid(text@),
{
    match uuid::Uuid::parse_str(text) {
        Ok(u) => Some(u.as_u128()),
        Err(_) => None,
    }
}

/// Calls `uuid::Uuid::new_v5`. Trusted: the result is a function of the namespace
/// and of the name's bytes.
#[verifier::external_body]
pub(crate) fn uuid_from_name(namespace: u128, name: &[u8]) -> (r: u128)
    ensures
        r == name_based_uuid(namespace, name@),
{
    uuid::Uuid::new_v5(&uuid::Uuid::from_u128(namespace), name).as_u128()
}

/// Calls `uuid::Uuid::new_v4`. The value is drawn at random, so nothing is claimed
/// of it.
#[verifier::external_body]
pub(crate) fn random_uuid() -> u128 {
    uuid::Uuid::new_v4().as_u128()
}

/// The value that sixteen bytes spell, or nothing for another number of bytes.
pub fn from_slice(bytes: &[u8]) -> (r: Option<u128>)
    ensures
        r is Some <==> bytes@.len() == 16,
        r matches Some(value) ==> value == big_endian(bytes@),
{
    if bytes.len() != 16 {
        return None;
    }
    let mut value: u128 = 0;
    let mut i: usize = 0;
    proof {
        vstd::arithmetic::power2::lemma2_to64();
    }
    while i < 16
        invariant
            i <= 16,
            bytes@.len() == 16,
            value == big_endian(bytes@.take(i as int)),
            value < vstd::arithmetic::power2::pow2((8 * i) as nat),
        decreases 16 - i,
    {
        proof {
            assert(bytes@.take(i + 1).drop_last() == bytes@.take(i as int));
            vstd::arithmetic::power2::lemma_pow2_adds((8 * i) as nat, 8);
            vstd::arithmetic::power2::lemma2_to64();
            let p = vstd::arithmetic::power2::pow2((8 * i) as nat);
            assert(value * 256 + 255 < p * 256) by (nonlinear_arith)
                requires
                    value < p,
            ;
            vstd::arithmetic::power2::lemma_pow2_adds(64, 64);
            if i < 15 {
                vstd::arithmetic::power2::lemma_pow2_strictly_increases((8 * i + 8) as nat, 128);
            }
            assert(vstd::arithmetic::power2::pow2(128) == 0x1_0000_0000_0000_0000
                * 0x1_0000_0000_0000_0000);
        }
        value = value * 256 + bytes[i] as u128;
        i = i + 1;
    }
    proof {
        assert(bytes@.take(16) == bytes@);
    }
    Some(value)
}

/// The sixteen bytes that spell `value`.
pub fn as_bytes(value: u128) -> (r: Vec<u8>)
    ensures
        r@ == stored(value),
{
    bytes_of(value, 16)
}

fn bytes_of(value: u128, n: usize) -> (r: Vec<u8>)
    ensures
        r@ == big_endian_bytes(value as nat, n as nat),
    decreases n,
{
    if n == 0 {
        Vec::new()
    } else {
        let mut v = bytes_of(value / 256, n - 1);
        v.push((value % 256) as u8);
        v
    }
}

/// Whether two byte strings are equal.
pub fn same_bytes(a: &Vec<u8>, b: &Vec<u8>) -> (r: bool)
    ensures
        r == (a@ == b@),
{
    if a.len() != b.len() {
        return false;
    }
    let mut i: usize = 0;
    while i < a.len()
        invariant
            i <= a@.len(),
            a@.len() == b@.len(),
            forall|k: int| 0 <= k < i ==> a@[k] == b@[k],
        decreases a.len() - i,
    {
        if a[i] != b[i] {
            return false;
        }
        i = i + 1;
    }
    assert(a@ =~= b@);
    true
}

/// The view of optional bytes.
pub open spec fn opt_bytes(bytes: Option<Vec<u8>>) -> Option<Seq<u8>> {
    match bytes {
        Some(b) => Some(b@),
        None => None,
    }
}

/// The bytes that an identifier is stored as.
pub open spec fn stored(value: u128) -> Seq<u8> {
    big_endian_bytes(value as nat, 16)
}

/// Whether `bytes` are what `value` is stored as.
pub fn is_stored_as(bytes: &Vec<u8>, value: u128) -> (r: bool)
    ensures
        r == (bytes@ == stored(value)),
{
    same_bytes(bytes, &as_bytes(value))
}

/// Different identifiers are stored as different bytes.
pub proof fn stored_is_injective(a: u128, b: u128)
    requires
        stored(a) == stored(b),
    ensures
        a == b,
{
    stored_bytes_read_back(a);
    stored_bytes_read_back(b);
}

/// What is stored of an identifier is read back as that identifier: the bytes that
/// `as_bytes` gives are sixteen, and `from_slice` reads the value from them.
pub proof fn stored_bytes_read_back(value: u128)
    ensures
        stored(value).len() == 16,
        big_endian(stored(value)) == value,
{
    vstd::arithmetic::power2::lemma_pow2_adds(64, 64);
    vstd::arithmetic::power2::lemma2_to64();
    lemma_bytes_read_back(value as nat, 16);
}

/// Sixteen bytes are what the value that is read from them is stored as.
pub proof fn read_bytes_are_stored(bytes: Seq<u8>)
    requires
        bytes.len() == 16,
    ensures
        big_endian_bytes(big_endian(bytes), 16) == bytes,
{
    lemma_bytes_written_back(bytes);
}

proof fn lemma_bytes_written_back(bytes: Seq<u8>)
    ensures
        big_endian_bytes(big_endian(bytes), bytes.len()) == bytes,
    decreases bytes.len(),
{
    if bytes.len() > 0 {
        let head = bytes.drop_last();
        lemma_bytes_written_back(head);
        let n = big_endian(head);
        let b = bytes.last() as nat;
        assert((n * 256 + b) / 256 == n && (n * 256 + b) % 256 == b);
        assert(bytes == head.push(bytes.last()));
    }
}

proof fn lemma_bytes_read_back(value: nat, n: nat)
    requires
        value < vstd::arithmetic::power2::pow2(8 * n),
    ensures
        big_endian_bytes(value, n).len() == n,
        big_endian(big_endian_bytes(value, n)) == value,
    decreases n,
{
    vstd::arithmetic::power2::lemma2_to64();
    if n > 0 {
        vstd::arithmetic::power2::lemma_pow2_adds((8 * (n - 1)) as nat, 8);
        let p = vstd::arithmetic::power2::pow2((8 * (n - 1)) as nat);
        assert(value / 256 < p) by (nonlinear_arith)
            requires
                value < p * 256,
        ;
        lemma_bytes_read_back(value / 256, (n - 1) as nat);
        let all = big_endian_bytes(value, n);
        assert(all.drop_last() == big_endian_bytes(value / 256, (n - 1) as nat));
    }
}

/// Different identifiers have different texts.
pub proof fn hyphenated_is_injective(a: u128, b: u128)
    requires
        hyphenated(a) == hyphenated(b),
    ensures
        a == b,
{
    assert forall|p: u128| p < 32 implies #[trigger] hex_at(a, p) == hex_at(b, p) by {
        let i: int = if p >= 24 {
            31 - p
        } else if p >= 20 {
            32 - p
        } else if p >= 16 {
            33 - p
        } else if p >= 12 {
            34 - p
        } else {
            35 - p
        };
        assert(digits_right_of(i) as u128 == p);
        assert(hyphenated(a)[i] == digit_char(hex_at(a, p) as int));
        assert(hyphenated(b)[i] == digit_char(hex_at(b, p) as int));
        assert((a >> (4 * p) as u128) & 15 < 16) by (bit_vector);
        assert((b >> (4 * p) as u128) & 15 < 16) by (bit_vector);
    }
    lemma_same_digits(a, b, 0);
    assert(a >> 0u128 == a) by (bit_vector);
    assert(b >> 0u128 == b) by (bit_vector);
}

/// The text of an identifier is read back as that identifier.
pub proof fn hyphenated_reads_back(value: u128)
    ensures
        parsed_uuid(hyphenated(value)) == Some(value),
{
    let s = hyphenated(value);
    let digits = ungrouped(s)->0;
    assert(digits.len() == 32);
    assert forall|k: int| 0 <= k < 32 implies #[trigger] digits[k] == digit_char(
        hex_at(value, (31 - k) as u128) as int,
    ) by {
        let i = if k < 8 {
            k
        } else if k < 12 {
            k + 1
        } else if k < 16 {
            k + 2
        } else if k < 20 {
            k + 3
        } else {
            k + 4
        };
        assert(digits[k] == s[i]);
        assert(digits_right_of(i) == 31 - k);
    }
    lemma_digits_spell(value, digits, 32);
    assert(digits.take(32) == digits);
    assert(value >> 0u128 == value) by (bit_vector);
}

/// The first `n` digits of a value spell what is left of it above the others.
proof fn lemma_digits_spell(value: u128, digits: Seq<char>, n: int)
    requires
        digits.len() == 32,
        1 <= n <= 32,
        forall|k: int| 0 <= k < 32 ==> #[trigger] digits[k] == digit_char(
            hex_at(value, (31 - k) as u128) as int,
        ),
    ensures
        hex_number(digits.take(n)) == Some((value >> (4 * (32 - n)) as u128) as nat),
    decreases n,
{
    let p = (32 - n) as u128;
    let d = hex_at(value, p);
    assert((value >> (4 * p) as u128) & 15 < 16) by (bit_vector);
    assert(digits.take(n).drop_last() == digits.take(n - 1));
    assert(digits.take(n).last() == digits[n - 1]);
    assert(hex_value(digit_char(d as int)) == Some(d as nat));
    if n == 1 {
        assert(digits.take(0).len() == 0);
        assert(value >> 124u128 == (value >> 124u128) & 15) by (bit_vector);
    } else {
        lemma_digits_spell(value, digits, n - 1);
        assert(value >> (4 * p) as u128 == (value >> ((4 * (p + 1)) as u128)) * 16 + ((value >> (4
            * p) as u128) & 15)) by (bit_vector)
            requires
                p < 31,
        ;
        assert(4 * (32 - (n - 1)) == 4 * (p + 1));
    }
}

/// Two values that agree in every digit from `p` on have the same digits above.
proof fn lemma_same_digits(a: u128, b: u128, p: u128)
    requires
        p <= 32,
        forall|q: u128| p <= q < 32 ==> #[trigger] hex_at(a, q) == hex_at(b, q),
    ensures
        p < 32 ==> a >> (4 * p) as u128 == b >> (4 * p) as u128,
    decreases 32 - p,
{
    if p < 32 {
        let next: u128 = (p + 1) as u128;
        lemma_same_digits(a, b, next);
        assert(hex_at(a, p) == hex_at(b, p));
        if next < 32 {
            assert(a >> (4 * p) as u128 == b >> (4 * p) as u128) by (bit_vector)
                requires
                    p < 31,
                    a >> ((4 * (p + 1)) as u128) == b >> ((4 * (p + 1)) as u128),
                    (a >> (4 * p) as u128) & 15 == (b >> (4 * p) as u128) & 15,
            ;
        } else {
            assert(a >> (4 * p) as u128 == b >> (4 * p) as u128) by (bit_vector)
                requires
                    p == 31,
                    (a >> (4 * p) as u128) & 15 == (b >> (4 * p) as u128) & 15,
            ;
        }
    }
}

/// An identifier is stored with its most significant byte first: byte `i` of the sixteen
/// is the one that has `15 - i` bytes below it.
pub proof fn most_significant_byte_is_stored_first(value: u128, i: int)
    requires
        0 <= i < 16,
    ensures
        stored(value)[i] == (value as int / vstd::arithmetic::power::pow(256, (15 - i) as nat))
            % 256,
{
    lemma_byte_at(value as nat, 16, i);
}

proof fn lemma_byte_at(value: nat, n: nat, i: int)
    requires
        0 <= i < n,
    ensures
        big_endian_bytes(value, n).len() == n,
        big_endian_bytes(value, n)[i] == (value as int / vstd::arithmetic::power::pow(
            256,
            (n - 1 - i) as nat,
        )) % 256,
    decreases n,
{
    let m = (n - 1) as nat;
    if m > 0 {
        lemma_byte_at(value / 256, m, if i < m { i } else { 0 });
    } else {
        assert(big_endian_bytes(value / 256, 0).len() == 0);
    }
    assert(big_endian_bytes(value, n) == big_endian_bytes(value / 256, m).push(
        (value % 256) as u8,
    ));
    if i == m {
        vstd::arithmetic::power::lemma_pow0(256);
    } else {
        let k = (n - 2 - i) as nat;
        let p = vstd::arithmetic::power::pow(256, k);
        vstd::arithmetic::power::lemma_pow_positive(256, k);
        vstd::arithmetic::power::lemma_pow_adds(256, 1, k);
        vstd::arithmetic::power::lemma_pow1(256);
        vstd::arithmetic::div_mod::lemma_div_denominator(value as int, 256, p);
    }
}

/// Optional bytes are looked at as they are.
pub proof fn optional_bytes_are_kept(bytes: Option<Vec<u8>>)
    ensures
        bytes matches Some(b) ==> opt_bytes(bytes) == Some(b@),
        bytes is None ==> opt_bytes(bytes) is None,
{
}

} // verus!
