//! Text form of 128-bit identifiers. An identifier prints as 32 lower-case
//! hex digits in five hyphen-separated groups of 8-4-4-4-12 digits; it parses
//! from that hyphenated form, from the bare 32-digit form, or from the
//! hyphenated form behind a `urn:uuid:` prefix, with digits of either case.
//! A path segment that fits none of these shapes is not an identifier.

use vstd::prelude::*;

use crate::cbor::u128_be;
use crate::contract::Contract;

verus! {

/// The lower-case hex digit character for a value below 16.
pub open spec fn hex_char(d: u8) -> char {
    if d == 0 {
        '0'
    } else if d == 1 {
        '1'
    } else if d == 2 {
        '2'
    } else if d == 3 {
        '3'
    } else if d == 4 {
        '4'
    } else if d == 5 {
        '5'
    } else if d == 6 {
        '6'
    } else if d == 7 {
        '7'
    } else if d == 8 {
        '8'
    } else if d == 9 {
        '9'
    } else if d == 10 {
        'a'
    } else if d == 11 {
        'b'
    } else if d == 12 {
        'c'
    } else if d == 13 {
        'd'
    } else if d == 14 {
        'e'
    } else {
        'f'
    }
}

/// The 32 hex digit values of an identifier, most significant first.
pub open spec fn hex_digits(id: u128) -> Seq<u8> {
    Seq::new(
        32,
        |i: int|
            if i % 2 == 0 {
                (u128_be(id)[i / 2] / 16) as u8
            } else {
                (u128_be(id)[i / 2] % 16) as u8
            },
    )
}

/// The bare 32-digit lower-case text of an identifier.
pub open spec fn spec_simple(id: u128) -> Seq<char> {
    Seq::new(32, |i: int| hex_char(hex_digits(id)[i]))
}

/// The hyphenated lower-case text of an identifier: digit groups of
/// 8-4-4-4-12.
pub open spec fn spec_hyphenated(id: u128) -> Seq<char> {
    spec_simple(id).subrange(0, 8) + seq!['-'] + spec_simple(id).subrange(8, 12) + seq!['-']
        + spec_simple(id).subrange(12, 16) + seq!['-'] + spec_simple(id).subrange(16, 20)
        + seq!['-'] + spec_simple(id).subrange(20, 32)
}

/// One lower-case hex digit as a string slice.
fn hex_char_str(d: u8) -> (r: &'static str)
    requires
        d < 16,
    ensures
        r@ == seq![hex_char(d)],
{
    proof {
        reveal_strlit("0");
        reveal_strlit("1");
        reveal_strlit("2");
        reveal_strlit("3");
        reveal_strlit("4");
        reveal_strlit("5");
        reveal_strlit("6");
        reveal_strlit("7");
        reveal_strlit("8");
        reveal_strlit("9");
        reveal_strlit("a");
        reveal_strlit("b");
        reveal_strlit("c");
        reveal_strlit("d");
        reveal_strlit("e");
        reveal_strlit("f");
    }
    let r = match d {
        0 => "0",
        1 => "1",
        2 => "2",
        3 => "3",
        4 => "4",
        5 => "5",
        6 => "6",
        7 => "7",
        8 => "8",
        9 => "9",
        10 => "a",
        11 => "b",
        12 => "c",
        13 => "d",
        14 => "e",
        _ => "f",
    };
    proof {
        assert(r@ =~= seq![hex_char(d)]);
    }
    r
}

/// Appends the two hex digits of one byte.
fn push_hex_byte(s: &mut String, b: u8)
    ensures
        final(s)@ == old(s)@ + seq![hex_char((b / 16) as u8), hex_char((b % 16) as u8)],
{
    s.append(hex_char_str(b / 16));
    s.append(hex_char_str(b % 16));
    proof {
        assert(final(s)@ =~= old(s)@ + seq![hex_char((b / 16) as u8), hex_char((b % 16) as u8)]);
    }
}

/// The bare 32-digit lower-case text of an identifier.
#[verifier::rlimit(60)]
pub fn format_simple(id: u128) -> (r: String)
    ensures
        r@ == spec_simple(id),
        r@.len() == 32,
{
    let mut s = String::new();
    push_hex_byte(&mut s, (id >> 120) as u8);
    proof {
        assert(s@ =~= spec_simple(id).subrange(0, 2));
    }
    push_hex_byte(&mut s, (id >> 112) as u8);
    proof {
        assert(s@ =~= spec_simple(id).subrange(0, 4));
    }
    push_hex_byte(&mut s, (id >> 104) as u8);
    proof {
        assert(s@ =~= spec_simple(id).subrange(0, 6));
    }
    push_hex_byte(&mut s, (id >> 96) as u8);
    proof {
        assert(s@ =~= spec_simple(id).subrange(0, 8));
    }
    push_hex_byte(&mut s, (id >> 88) as u8);
    proof {
        assert(s@ =~= spec_simple(id).subrange(0, 10));
    }
    push_hex_byte(&mut s, (id >> 80) as u8);
    proof {
        assert(s@ =~= spec_simple(id).subrange(0, 12));
    }
    push_hex_byte(&mut s, (id >> 72) as u8);
    proof {
        assert(s@ =~= spec_simple(id).subrange(0, 14));
    }
    push_hex_byte(&mut s, (id >> 64) as u8);
    proof {
        assert(s@ =~= spec_simple(id).subrange(0, 16));
    }
    push_hex_byte(&mut s, (id >> 56) as u8);
    proof {
        assert(s@ =~= spec_simple(id).subrange(0, 18));
    }
    push_hex_byte(&mut s, (id >> 48) as u8);
    proof {
        assert(s@ =~= spec_simple(id).subrange(0, 20));
    }
    push_hex_byte(&mut s, (id >> 40) as u8);
    proof {
        assert(s@ =~= spec_simple(id).subrange(0, 22));
    }
    push_hex_byte(&mut s, (id >> 32) as u8);
    proof {
        assert(s@ =~= spec_simple(id).subrange(0, 24));
    }
    push_hex_byte(&mut s, (id >> 24) as u8);
    proof {
        assert(s@ =~= spec_simple(id).subrange(0, 26));
    }
    push_hex_byte(&mut s, (id >> 16) as u8);
    proof {
        assert(s@ =~= spec_simple(id).subrange(0, 28));
    }
    push_hex_byte(&mut s, (id >> 8) as u8);
    proof {
        assert(s@ =~= spec_simple(id).subrange(0, 30));
    }
    push_hex_byte(&mut s, id as u8);
    proof {
        assert(s@ =~= spec_simple(id).subrange(0, 32));
        assert(spec_simple(id).subrange(0, 32) =~= spec_simple(id));
    }
    s
}

/// The hyphenated lower-case text of an identifier — the canonical way an
/// identifier appears in a `Location` header or a listing line.
pub fn format_hyphenated(id: u128) -> (r: String)
    ensures
        r@ == spec_hyphenated(id),
        r@.len() == 36,
{
    let simple = format_simple(id);
    let mut s = String::new();
    s.append(simple.as_str().substring_char(0, 8));
    s.append("-");
    s.append(simple.as_str().substring_char(8, 12));
    s.append("-");
    s.append(simple.as_str().substring_char(12, 16));
    s.append("-");
    s.append(simple.as_str().substring_char(16, 20));
    s.append("-");
    s.append(simple.as_str().substring_char(20, 32));
    proof {
        reveal_strlit("-");
        assert("-"@ =~= seq!['-']);
        assert(s@ =~= spec_hyphenated(id));
    }
    s
}

/// One listing line of a contract, as a client prints it: the hyphenated
/// identifier followed by the backend's label in parentheses.
pub fn contract_line(c: &Contract) -> (r: String)
    ensures
        r@ == spec_hyphenated(c.uuid) + " ("@ + c.backend.spec_label() + ")"@,
{
    let mut s = format_hyphenated(c.uuid);
    s.append(" (");
    s.append(c.backend.as_str());
    s.append(")");
    s
}

/// Whether a byte is an ASCII hex digit, of either case.
pub open spec fn is_hex_digit(b: u8) -> bool {
    (0x30 <= b <= 0x39) || (0x61 <= b <= 0x66) || (0x41 <= b <= 0x46)
}

/// The value of an ASCII hex digit byte.
pub open spec fn hex_val(b: u8) -> u8 {
    if 0x30 <= b <= 0x39 {
        (b - 0x30) as u8
    } else if 0x61 <= b <= 0x66 {
        (b - 0x61 + 10) as u8
    } else {
        (b - 0x41 + 10) as u8
    }
}

/// Sixteen to the `n`.
pub open spec fn pow16(n: nat) -> int
    decreases n,
{
    if n == 0 {
        1
    } else {
        16 * pow16((n - 1) as nat)
    }
}

proof fn lemma_pow16_pos(n: nat)
    ensures
        pow16(n) >= 1,
    decreases n,
{
    if n > 0 {
        lemma_pow16_pos((n - 1) as nat);
    }
}

proof fn lemma_pow16_mono(a: nat, b: nat)
    requires
        a <= b,
    ensures
        pow16(a) <= pow16(b),
    decreases b,
{
    if a < b {
        lemma_pow16_mono(a, (b - 1) as nat);
        lemma_pow16_pos((b - 1) as nat);
    }
}

/// The value of a big-endian sequence of hex digit bytes.
pub open spec fn hex_value(s: Seq<u8>) -> int
    decreases s.len(),
{
    if s.len() == 0 {
        0
    } else {
        16 * hex_value(s.drop_last()) + hex_val(s.last())
    }
}

proof fn lemma_hex_value_bound(s: Seq<u8>)
    requires
        forall|j: int| 0 <= j < s.len() ==> hex_val(#[trigger] s[j]) < 16,
    ensures
        0 <= hex_value(s) < pow16(s.len()),
    decreases s.len(),
{
    if s.len() > 0 {
        lemma_hex_value_bound(s.drop_last());
    }
}

/// Whether a byte is an ASCII hex digit.
fn hex_digit(b: u8) -> (r: bool)
    ensures
        r == is_hex_digit(b),
{
    (0x30 <= b && b <= 0x39) || (0x61 <= b && b <= 0x66) || (0x41 <= b && b <= 0x46)
}

/// The value of an ASCII hex digit byte.
fn hex_digit_val(b: u8) -> (r: u8)
    requires
        is_hex_digit(b),
    ensures
        r == hex_val(b),
        r < 16,
{
    if 0x30 <= b && b <= 0x39 {
        b - 0x30
    } else if 0x61 <= b && b <= 0x66 {
        b - 0x61 + 10
    } else {
        b - 0x41 + 10
    }
}

/// Folds 32 hex digit bytes, most significant first, into a value; rejects
/// the input exactly when some byte is no hex digit.
fn fold_hex(s: &[u8]) -> (r: Option<u128>)
    requires
        s@.len() == 32,
    ensures
        match r {
            Some(v) => (forall|j: int| 0 <= j < s@.len() ==> is_hex_digit(#[trigger] s@[j])) && v
                as int == hex_value(s@),
            None => exists|j: int| 0 <= j < s@.len() && !is_hex_digit(#[trigger] s@[j]),
        },
{
    let mut acc: u128 = 0;
    let mut i: usize = 0;
    proof {
        assert(s@.take(0) =~= Seq::<u8>::empty());
    }
    while i < 32
        invariant
            s@.len() == 32,
            i <= 32,
            forall|j: int| 0 <= j < i ==> is_hex_digit(#[trigger] s@[j]),
            acc as int == hex_value(s@.take(i as int)),
            acc < pow16(i as nat),
        decreases 32 - i,
    {
        let b = s[i];
        if !hex_digit(b) {
            return None;
        }
        let v = hex_digit_val(b);
        proof {
            lemma_pow16_mono(i as nat, 31);
            assert(pow16(31nat) * 16 == pow16(32nat));
            assert(pow16(32nat) == 0x1_0000_0000_0000_0000_0000_0000_0000_0000) by {
                reveal_with_fuel(pow16, 33);
            }
            assert(s@.take(i + 1).drop_last() =~= s@.take(i as int));
            assert(s@.take(i + 1).last() == s@[i as int]);
        }
        acc = acc * 16 + (v as u128);
        i += 1;
    }
    proof {
        assert(s@.take(32) =~= s@);
    }
    Some(acc)
}

/// The hyphen positions of the hyphenated form.
pub open spec fn is_hyphen_pos(j: int) -> bool {
    j == 8 || j == 13 || j == 18 || j == 23
}

/// The 32 digit bytes of a 36-byte hyphenated form, in order.
pub open spec fn hyph_digits(s: Seq<u8>) -> Seq<u8> {
    s.subrange(0, 8) + s.subrange(9, 13) + s.subrange(14, 18) + s.subrange(19, 23) + s.subrange(
        24,
        36,
    )
}

/// A 36-byte hyphenated identifier: four hyphens separating digit groups of
/// 8-4-4-4-12.
pub open spec fn is_hyphenated_form(s: Seq<u8>) -> bool {
    s.len() == 36 && s[8] == 0x2d && s[13] == 0x2d && s[18] == 0x2d && s[23] == 0x2d && forall|
        j: int,
    |
        0 <= j < 36 && !is_hyphen_pos(j) ==> is_hex_digit(#[trigger] s[j])
}

/// A bare 32-digit identifier.
pub open spec fn is_simple_form(s: Seq<u8>) -> bool {
    s.len() == 32 && forall|j: int| 0 <= j < 32 ==> is_hex_digit(#[trigger] s[j])
}

/// The bytes of the `urn:uuid:` prefix.
pub open spec fn urn_prefix() -> Seq<u8> {
    seq![0x75u8, 0x72u8, 0x6eu8, 0x3au8, 0x75u8, 0x75u8, 0x69u8, 0x64u8, 0x3au8]
}

/// A hyphenated identifier behind the `urn:uuid:` prefix.
pub open spec fn is_urn_form(s: Seq<u8>) -> bool {
    s.len() == 45 && s.subrange(0, 9) == urn_prefix() && is_hyphenated_form(s.skip(9))
}

/// The three accepted identifier shapes.
pub open spec fn is_uuid_text(s: Seq<u8>) -> bool {
    is_simple_form(s) || is_hyphenated_form(s) || is_urn_form(s)
}

/// The value of an accepted identifier shape.
pub open spec fn uuid_text_value(s: Seq<u8>) -> int {
    if s.len() == 32 {
        hex_value(s)
    } else if s.len() == 36 {
        hex_value(hyph_digits(s))
    } else {
        hex_value(hyph_digits(s.skip(9)))
    }
}

/// Parses the 36-byte hyphenated form.
fn parse_hyphenated(s: &[u8]) -> (r: Option<u128>)
    requires
        s@.len() == 36,
    ensures
        match r {
            Some(v) => is_hyphenated_form(s@) && v as int == hex_value(hyph_digits(s@)),
            None => !is_hyphenated_form(s@),
        },
{
    if !(s[8] == 0x2d && s[13] == 0x2d && s[18] == 0x2d && s[23] == 0x2d) {
        return None;
    }
    let mut d: Vec<u8> = Vec::new();
    let mut i: usize = 0;
    proof {
        assert(d@ =~= s@.subrange(0, 0));
    }
    while i < 8
        invariant
            s@.len() == 36,
            i <= 8,
            d@ == s@.subrange(0, i as int),
        decreases 8 - i,
    {
        d.push(s[i]);
        proof {
            assert(d@ =~= s@.subrange(0, i + 1));
        }
        i += 1;
    }
    i = 9;
    while i < 13
        invariant
            s@.len() == 36,
            9 <= i <= 13,
            d@ == s@.subrange(0, 8) + s@.subrange(9, i as int),
        decreases 13 - i,
    {
        d.push(s[i]);
        proof {
            assert(d@ =~= s@.subrange(0, 8) + s@.subrange(9, i + 1));
        }
        i += 1;
    }
    i = 14;
    while i < 18
        invariant
            s@.len() == 36,
            14 <= i <= 18,
            d@ == s@.subrange(0, 8) + s@.subrange(9, 13) + s@.subrange(14, i as int),
        decreases 18 - i,
    {
        d.push(s[i]);
        proof {
            assert(d@ =~= s@.subrange(0, 8) + s@.subrange(9, 13) + s@.subrange(14, i + 1));
        }
        i += 1;
    }
    i = 19;
    while i < 23
        invariant
            s@.len() == 36,
            19 <= i <= 23,
            d@ == s@.subrange(0, 8) + s@.subrange(9, 13) + s@.subrange(14, 18) + s@.subrange(
                19,
                i as int,
            ),
        decreases 23 - i,
    {
        d.push(s[i]);
        proof {
            assert(d@ =~= s@.subrange(0, 8) + s@.subrange(9, 13) + s@.subrange(14, 18)
                + s@.subrange(19, i + 1));
        }
        i += 1;
    }
    i = 24;
    while i < 36
        invariant
            s@.len() == 36,
            24 <= i <= 36,
            d@ == s@.subrange(0, 8) + s@.subrange(9, 13) + s@.subrange(14, 18) + s@.subrange(19, 23)
                + s@.subrange(24, i as int),
        decreases 36 - i,
    {
        d.push(s[i]);
        proof {
            assert(d@ =~= s@.subrange(0, 8) + s@.subrange(9, 13) + s@.subrange(14, 18)
                + s@.subrange(19, 23) + s@.subrange(24, i + 1));
        }
        i += 1;
    }
    proof {
        assert(d@ == hyph_digits(s@));
        assert(d@.len() == 32);
    }
    match fold_hex(d.as_slice()) {
        Some(v) => {
            proof {
                assert forall|j: int| 0 <= j < 36 && !is_hyphen_pos(j) implies is_hex_digit(
                    #[trigger] s@[j],
                ) by {
                    if j < 8 {
                        assert(s@[j] == hyph_digits(s@)[j]);
                    } else if j < 13 {
                        assert(s@[j] == hyph_digits(s@)[j - 1]);
                    } else if j < 18 {
                        assert(s@[j] == hyph_digits(s@)[j - 2]);
                    } else if j < 23 {
                        assert(s@[j] == hyph_digits(s@)[j - 3]);
                    } else {
                        assert(s@[j] == hyph_digits(s@)[j - 4]);
                    }
                }
            }
            Some(v)
        },
        None => {
            proof {
                let k = choose|k: int| 0 <= k < d@.len() && !is_hex_digit(#[trigger] d@[k]);
                let j = if k < 8 {
                    k
                } else if k < 12 {
                    k + 1
                } else if k < 16 {
                    k + 2
                } else if k < 20 {
                    k + 3
                } else {
                    k + 4
                };
                assert(s@[j] == hyph_digits(s@)[k]);
                assert(!is_hyphen_pos(j) && !is_hex_digit(s@[j]));
            }
            None
        },
    }
}

/// Parses an identifier from path-segment bytes. Returns the identifier's
/// value exactly when the bytes fit one of the three accepted shapes, and
/// `None` otherwise.
pub fn parse_uuid(s: &[u8]) -> (r: Option<u128>)
    ensures
        match r {
            Some(v) => is_uuid_text(s@) && v as int == uuid_text_value(s@),
            None => !is_uuid_text(s@),
        },
{
    let n = s.len();
    if n == 32 {
        fold_hex(s)
    } else if n == 36 {
        parse_hyphenated(s)
    } else if n == 45 {
        if !(s[0] == 0x75 && s[1] == 0x72 && s[2] == 0x6e && s[3] == 0x3a && s[4] == 0x75 && s[5]
            == 0x75 && s[6] == 0x69 && s[7] == 0x64 && s[8] == 0x3a) {
            proof {
                assert(s@.subrange(0, 9) != urn_prefix()) by {
                    if s@.subrange(0, 9) == urn_prefix() {
                        assert(s@[0] == s@.subrange(0, 9)[0]);
                        assert(s@[1] == s@.subrange(0, 9)[1]);
                        assert(s@[2] == s@.subrange(0, 9)[2]);
                        assert(s@[3] == s@.subrange(0, 9)[3]);
                        assert(s@[4] == s@.subrange(0, 9)[4]);
                        assert(s@[5] == s@.subrange(0, 9)[5]);
                        assert(s@[6] == s@.subrange(0, 9)[6]);
                        assert(s@[7] == s@.subrange(0, 9)[7]);
                        assert(s@[8] == s@.subrange(0, 9)[8]);
                    }
                }
            }
            return None;
        }
        proof {
            assert(s@.subrange(0, 9) =~= urn_prefix());
        }
        let rest = vstd::slice::slice_subrange(s, 9, 45);
        proof {
            assert(rest@ == s@.skip(9));
        }
        parse_hyphenated(rest)
    } else {
        None
    }
}

} // verus!
