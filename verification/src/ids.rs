//! Cluster-wide identifiers.
//!
//! Every entity is identified by an opaque 128-bit value. On the wire and in
//! catalog keys an identifier appears in its canonical text form: 32 lower
//! case hexadecimal digits in five groups of 8-4-4-4-12 separated by hyphens.
//! Formatting and parsing of that text form are verified here; only the
//! generation of a fresh random identifier is delegated to an outside crate.

use vstd::prelude::*;
use vstd::arithmetic::div_mod::{lemma_fundamental_div_mod, lemma_div_denominator};
use crate::strutil::push_char;

verus! {

/// 16 raised to `k`.
pub open spec fn pow16(k: nat) -> int
    decreases k,
{
    if k == 0 {
        1
    } else {
        16 * pow16((k - 1) as nat)
    }
}

pub proof fn lemma_pow16_pos(k: nat)
    ensures
        pow16(k) >= 1,
    decreases k,
{
    if k > 0 {
        lemma_pow16_pos((k - 1) as nat);
    }
}

pub proof fn lemma_pow16_32()
    ensures
        pow16(32) == 0x100000000000000000000000000000000,
{
    reveal_with_fuel(pow16, 33);
}

/// The hexadecimal digit at position `i` (most significant first) of the
/// 32-digit expansion of `id`.
pub open spec fn nibble_of(id: u128, i: int) -> int {
    (id as int / pow16((31 - i) as nat)) % 16
}

/// The lower case hexadecimal character for a digit value in `0..16`.
pub open spec fn hex_char(d: int) -> char {
    if d == 0 { '0' } else if d == 1 { '1' } else if d == 2 { '2' }
    else if d == 3 { '3' } else if d == 4 { '4' } else if d == 5 { '5' }
    else if d == 6 { '6' } else if d == 7 { '7' } else if d == 8 { '8' }
    else if d == 9 { '9' } else if d == 10 { 'a' } else if d == 11 { 'b' }
    else if d == 12 { 'c' } else if d == 13 { 'd' } else if d == 14 { 'e' }
    else { 'f' }
}

/// The numeric value of a hexadecimal character, either case.
pub open spec fn hex_val(c: char) -> Option<int> {
    if c == '0' { Some(0int) } else if c == '1' { Some(1int) }
    else if c == '2' { Some(2int) } else if c == '3' { Some(3int) }
    else if c == '4' { Some(4int) } else if c == '5' { Some(5int) }
    else if c == '6' { Some(6int) } else if c == '7' { Some(7int) }
    else if c == '8' { Some(8int) } else if c == '9' { Some(9int) }
    else if c == 'a' || c == 'A' { Some(10int) }
    else if c == 'b' || c == 'B' { Some(11int) }
    else if c == 'c' || c == 'C' { Some(12int) }
    else if c == 'd' || c == 'D' { Some(13int) }
    else if c == 'e' || c == 'E' { Some(14int) }
    else if c == 'f' || c == 'F' { Some(15int) }
    else { None }
}

pub proof fn lemma_hex_val_of_hex_char(d: int)
    requires
        0 <= d < 16,
    ensures
        hex_val(hex_char(d)) == Some(d),
{
}

/// The 32 hexadecimal digits of `id`, most significant first.
pub open spec fn hex32_chars(id: u128) -> Seq<char> {
    Seq::new(32, |i: int| hex_char(nibble_of(id, i)))
}

/// The canonical hyphenated text form of an identifier.
pub open spec fn uuid_chars(id: u128) -> Seq<char> {
    let h = hex32_chars(id);
    h.subrange(0, 8) + seq!['-'] + h.subrange(8, 12) + seq!['-'] + h.subrange(12, 16)
        + seq!['-'] + h.subrange(16, 20) + seq!['-'] + h.subrange(20, 32)
}

/// The 32 digit positions of a 36-character hyphenated identifier text.
pub open spec fn uuid_digit_chars(s: Seq<char>) -> Seq<char> {
    s.subrange(0, 8) + s.subrange(9, 13) + s.subrange(14, 18) + s.subrange(19, 23)
        + s.subrange(24, 36)
}

/// Left fold of hexadecimal digits onto an accumulator.
pub open spec fn parse_hex(ds: Seq<char>, acc: int) -> Option<int>
    decreases ds.len(),
{
    if ds.len() == 0 {
        Some(acc)
    } else {
        match hex_val(ds[0]) {
            Some(v) => parse_hex(ds.drop_first(), acc * 16 + v),
            None => None,
        }
    }
}

/// Whether a 36-character sequence has hyphens exactly at positions 8, 13,
/// 18 and 23.
pub open spec fn uuid_shape_ok(s: Seq<char>) -> bool {
    s.len() == 36 && s[8] == '-' && s[13] == '-' && s[18] == '-' && s[23] == '-'
}

/// The identifier denoted by a hyphenated text, if the text is well formed.
pub open spec fn spec_parse_uuid(s: Seq<char>) -> Option<u128> {
    if uuid_shape_ok(s) {
        match parse_hex(uuid_digit_chars(s), 0) {
            Some(v) => if 0 <= v < 0x100000000000000000000000000000000 {
                Some(v as u128)
            } else {
                None
            },
            None => None,
        }
    } else {
        None
    }
}

/// Relies on `uuid::Uuid::new_v4` to draw a fresh random identifier; nothing
/// is assumed of the value.
#[verifier::external_body]
pub(crate) fn fresh_id() -> u128 {
    uuid::Uuid::new_v4().as_u128()
}

fn hex_char_exec(d: u8) -> (c: char)
    requires
        d < 16,
    ensures
        c == hex_char(d as int),
{
    match d {
        0 => '0', 1 => '1', 2 => '2', 3 => '3', 4 => '4', 5 => '5', 6 => '6',
        7 => '7', 8 => '8', 9 => '9', 10 => 'a', 11 => 'b', 12 => 'c',
        13 => 'd', 14 => 'e', _ => 'f',
    }
}

fn hex_val_exec(c: char) -> (r: Option<u8>)
    ensures
        match r {
            Some(v) => hex_val(c) == Some(v as int) && v < 16,
            None => hex_val(c) is None,
        },
{
    match c {
        '0' => Some(0), '1' => Some(1), '2' => Some(2), '3' => Some(3),
        '4' => Some(4), '5' => Some(5), '6' => Some(6), '7' => Some(7),
        '8' => Some(8), '9' => Some(9),
        'a' | 'A' => Some(10), 'b' | 'B' => Some(11), 'c' | 'C' => Some(12),
        'd' | 'D' => Some(13), 'e' | 'E' => Some(14), 'f' | 'F' => Some(15),
        _ => None,
    }
}

proof fn lemma_pow16_le(k: nat, m: nat)
    requires
        k <= m,
    ensures
        pow16(k) <= pow16(m),
    decreases m,
{
    if k < m {
        lemma_pow16_le(k, (m - 1) as nat);
        lemma_pow16_pos((m - 1) as nat);
    }
}

proof fn lemma_pow16_31()
    ensures
        pow16(31) == 0x10000000000000000000000000000000,
{
    reveal_with_fuel(pow16, 32);
}

proof fn lemma_pow16_bound(k: nat)
    ensures
        k <= 32 ==> pow16(k) <= 0x100000000000000000000000000000000,
    decreases 32 - k,
{
    if k < 32 {
        lemma_pow16_bound((k + 1) as nat);
        lemma_pow16_pos(k);
    } else if k == 32 {
        lemma_pow16_32();
    }
}

/// The 32 hexadecimal digits of `id`, most significant first, as a string.
fn hex32_string(id: u128) -> (r: String)
    ensures
        r@ == hex32_chars(id),
{
    let mut pow: u128 = 1;
    let mut k: usize = 0;
    while k < 31
        invariant
            k <= 31,
            pow == pow16(k as nat),
        decreases 31 - k,
    {
        proof {
            lemma_pow16_le((k + 1) as nat, 31);
            lemma_pow16_31();
            lemma_pow16_pos(k as nat);
        }
        pow = pow * 16;
        k = k + 1;
    }

    let mut r = String::new();
    let mut i: usize = 0;
    while i < 32
        invariant
            i <= 32,
            i < 32 ==> pow == pow16((31 - i) as nat),
            r@ == hex32_chars(id).subrange(0, i as int),
        decreases 32 - i,
    {
        proof {
            lemma_pow16_pos((31 - i) as nat);
        }
        let nib = ((id / pow) % 16) as u8;
        let c = hex_char_exec(nib);
        assert(c == hex_char(nibble_of(id, i as int)));
        push_char(&mut r, c);
        if i < 31 {
            proof {
                // pow16(31 - i) / 16 == pow16(31 - (i + 1))
                lemma_pow16_pos((30 - i) as nat);
                assert(pow16((31 - i) as nat) == 16 * pow16((30 - i) as nat));
            }
            pow = pow / 16;
            assert(pow == pow16((31 - (i + 1)) as nat)) by {
                assert(16 * pow16((30 - i) as nat) / 16 == pow16((30 - i) as nat))
                    by (nonlinear_arith)
                    requires pow16((30 - i) as nat) >= 1,
                ;
            }
        }
        i = i + 1;
        assert(r@ =~= hex32_chars(id).subrange(0, i as int));
    }
    assert(r@ =~= hex32_chars(id));
    r
}

/// Formats an identifier in its canonical hyphenated text form.
pub fn format_id(id: u128) -> (r: String)
    ensures
        r@ == uuid_chars(id),
{
    let h = hex32_string(id);
    let hs = h.as_str();
    let mut r = String::new();
    r.append(hs.substring_char(0, 8));
    r.append("-");
    r.append(hs.substring_char(8, 12));
    r.append("-");
    r.append(hs.substring_char(12, 16));
    r.append("-");
    r.append(hs.substring_char(16, 20));
    r.append("-");
    r.append(hs.substring_char(20, 32));
    proof {
        reveal_strlit("-");
        assert(r@ =~= uuid_chars(id));
    }
    r
}

/// Parses the canonical hyphenated text form of an identifier.
///
/// Returns `None` exactly on malformed text: a length other than 36,
/// a hyphen out of place, or a character that is not a hexadecimal digit.
pub fn parse_id(s: &str) -> (r: Option<u128>)
    ensures
        r == spec_parse_uuid(s@),
{
    let n = s.unicode_len();
    if n != 36 {
        return None;
    }
    if !(s.get_char(8) == '-' && s.get_char(13) == '-' && s.get_char(18) == '-'
        && s.get_char(23) == '-') {
        return None;
    }
    let mut ds = String::new();
    ds.append(s.substring_char(0, 8));
    ds.append(s.substring_char(9, 13));
    ds.append(s.substring_char(14, 18));
    ds.append(s.substring_char(19, 23));
    ds.append(s.substring_char(24, 36));
    assert(ds@ =~= uuid_digit_chars(s@));

    let digits = ds.as_str();
    let mut acc: u128 = 0;
    let mut i: usize = 0;
    proof {
        lemma_pow16_pos(0);
        assert(digits@.subrange(0, 32) =~= digits@);
    }
    while i < 32
        invariant
            i <= 32,
            digits@ == uuid_digit_chars(s@),
            digits@.len() == 32,
            (acc as int) < pow16(i as nat),
            parse_hex(digits@, 0) == parse_hex(digits@.subrange(i as int, 32), acc as int),
        decreases 32 - i,
    {
        let c = digits.get_char(i);
        match hex_val_exec(c) {
            Some(v) => {
                proof {
                    lemma_pow16_bound((i + 1) as nat);
                    lemma_pow16_pos(i as nat);
                    assert(pow16((i + 1) as nat) == 16 * pow16(i as nat));
                    assert((acc as int) * 16 + 15 < pow16((i + 1) as nat))
                        by (nonlinear_arith)
                        requires (acc as int) < pow16(i as nat),
                            pow16((i + 1) as nat) == 16 * pow16(i as nat),
                    ;
                    lemma_pow16_32();
                    assert(digits@.subrange(i as int, 32).drop_first()
                        =~= digits@.subrange(i as int + 1, 32));
                }
                acc = acc * 16 + (v as u128);
            }
            None => {
                assert(parse_hex(digits@.subrange(i as int, 32), acc as int) is None);
                return None;
            }
        }
        i = i + 1;
    }
    assert(digits@.subrange(32, 32) =~= Seq::<char>::empty());
    assert(parse_hex(digits@, 0) == Some(acc as int));
    Some(acc)
}

proof fn lemma_parse_hex32_of_format(id: u128, i: nat)
    requires
        i <= 32,
    ensures
        parse_hex(hex32_chars(id).subrange(i as int, 32), id as int / pow16((32 - i) as nat))
            == Some(id as int),
    decreases 32 - i,
{
    lemma_pow16_pos((32 - i) as nat);
    if i == 32 {
        assert(hex32_chars(id).subrange(32, 32) =~= Seq::<char>::empty());
        assert(pow16(0) == 1);
    } else {
        let ds = hex32_chars(id).subrange(i as int, 32);
        let q = id as int / pow16((31 - i) as nat);
        assert(ds[0] == hex_char(nibble_of(id, i as int)));
        lemma_hex_val_of_hex_char(nibble_of(id, i as int));
        assert(hex_val(ds[0]) == Some(nibble_of(id, i as int)));
        // accumulator step: acc * 16 + nibble == id / pow16(31 - i)
        lemma_pow16_pos((31 - i) as nat);
        assert(pow16((32 - i) as nat) == 16 * pow16((31 - i) as nat));
        lemma_div_denominator(id as int, pow16((31 - i) as nat), 16);
        assert(id as int / pow16((31 - i) as nat) / 16 == id as int / pow16((32 - i) as nat));
        lemma_fundamental_div_mod(q, 16);
        assert((id as int / pow16((32 - i) as nat)) * 16 + nibble_of(id, i as int) == q);
        assert(ds.drop_first() =~= hex32_chars(id).subrange(i as int + 1, 32));
        lemma_parse_hex32_of_format(id, (i + 1) as nat);
    }
}

/// Parsing the canonical text of an identifier recovers the identifier.
pub proof fn lemma_uuid_round_trip(id: u128)
    ensures
        spec_parse_uuid(uuid_chars(id)) == Some(id),
{
    let s = uuid_chars(id);
    assert(uuid_shape_ok(s));
    assert(uuid_digit_chars(s) =~= hex32_chars(id));
    lemma_parse_hex32_of_format(id, 0);
    lemma_pow16_32();
    assert(id as int / pow16(32) == 0) by {
        vstd::arithmetic::div_mod::lemma_basic_div(id as int, pow16(32));
    }
    assert(hex32_chars(id).subrange(0, 32) =~= hex32_chars(id));
    assert(parse_hex(hex32_chars(id), 0) == Some(id as int));
}

} // verus!
