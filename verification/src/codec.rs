//! The stable, versioned byte encoding used for every catalog record.
//!
//! Each record is encoded as a version byte followed by its fields in a
//! fixed order; integers are little endian with a fixed width, strings are
//! length-prefixed UTF-8, options carry a presence byte, and identifier
//! lists are count-prefixed. Every field kind comes with a spec-level
//! encoder, a spec-level reader that consumes the field from the front of a
//! byte sequence, a proof that reading the encoding yields the value back,
//! and executable functions proved against the spec pair.

use vstd::prelude::*;
use vstd::arithmetic::div_mod::lemma_fundamental_div_mod;
use vstd::utf8::{valid_utf8, decode_utf8, encode_utf8, encode_utf8_decode_utf8,
    encode_utf8_valid_utf8, decode_utf8_encode_utf8};
use crate::strutil::bytes_to_str;

verus! {

/// 256 raised to `k`.
pub open spec fn pow256(k: nat) -> int
    decreases k,
{
    if k == 0 {
        1
    } else {
        256 * pow256((k - 1) as nat)
    }
}

pub proof fn lemma_pow256_pos(k: nat)
    ensures
        pow256(k) >= 1,
    decreases k,
{
    if k > 0 {
        lemma_pow256_pos((k - 1) as nat);
    }
}

pub proof fn lemma_pow256_values()
    ensures
        pow256(1) == 0x100,
        pow256(4) == 0x100000000,
        pow256(8) == 0x10000000000000000,
        pow256(16) == 0x100000000000000000000000000000000,
{
    reveal_with_fuel(pow256, 17);
}

proof fn lemma_pow256_le(k: nat, m: nat)
    requires
        k <= m,
    ensures
        pow256(k) <= pow256(m),
    decreases m,
{
    if k < m {
        lemma_pow256_le(k, (m - 1) as nat);
        lemma_pow256_pos((m - 1) as nat);
    }
}

/// The `k` little-endian bytes of a non-negative integer.
pub open spec fn le_bytes(n: int, k: nat) -> Seq<u8>
    decreases k,
{
    if k == 0 {
        Seq::empty()
    } else {
        seq![(n % 256) as u8] + le_bytes(n / 256, (k - 1) as nat)
    }
}

/// The integer denoted by a little-endian byte sequence.
pub open spec fn le_val(bs: Seq<u8>) -> int
    decreases bs.len(),
{
    if bs.len() == 0 {
        0
    } else {
        bs[0] + 256 * le_val(bs.drop_first())
    }
}

pub proof fn lemma_le_bytes_len(n: int, k: nat)
    ensures
        le_bytes(n, k).len() == k,
    decreases k,
{
    if k > 0 {
        lemma_le_bytes_len(n / 256, (k - 1) as nat);
    }
}

pub proof fn lemma_le_val_bound(bs: Seq<u8>)
    ensures
        0 <= le_val(bs) < pow256(bs.len()),
    decreases bs.len(),
{
    if bs.len() == 0 {
    } else {
        lemma_le_val_bound(bs.drop_first());
    }
}

/// Decoding the little-endian encoding of an in-range integer recovers it.
pub proof fn lemma_le_round_trip(n: int, k: nat)
    requires
        0 <= n < pow256(k),
    ensures
        le_val(le_bytes(n, k)) == n,
    decreases k,
{
    if k == 0 {
    } else {
        lemma_le_bytes_len(n / 256, (k - 1) as nat);
        let bs = le_bytes(n, k);
        assert(bs.drop_first() =~= le_bytes(n / 256, (k - 1) as nat));
        lemma_pow256_pos((k - 1) as nat);
        assert(0 <= n / 256 < pow256((k - 1) as nat)) by (nonlinear_arith)
            requires
                0 <= n < pow256(k),
                pow256(k) == 256 * pow256((k - 1) as nat),
                pow256((k - 1) as nat) >= 1,
        ;
        lemma_le_round_trip(n / 256, (k - 1) as nat);
        lemma_fundamental_div_mod(n, 256);
    }
}

/// A UTF-8 encoding takes at most four bytes per character.
pub proof fn lemma_encode_utf8_len(s: Seq<char>)
    ensures
        encode_utf8(s).len() <= 4 * s.len(),
    decreases s.len(),
{
    if s.len() > 0 {
        assert(vstd::utf8::encode_scalar(s[0] as u32).len() <= 4);
        lemma_encode_utf8_len(s.drop_first());
    }
}

// ---------------------------------------------------------------------------
// Spec-level field encoders.
// ---------------------------------------------------------------------------

/// The encoding of a byte string: a 4-byte length followed by the bytes.
pub open spec fn bytes_field(bs: Seq<u8>) -> Seq<u8> {
    le_bytes(bs.len() as int, 4) + bs
}

/// The encoding of a character string: its UTF-8 bytes as a byte field.
pub open spec fn str_field(s: Seq<char>) -> Seq<u8> {
    bytes_field(encode_utf8(s))
}

/// The encoding of an optional string: a presence byte, then the string.
pub open spec fn opt_str_field(s: Option<Seq<char>>) -> Seq<u8> {
    match s {
        Some(cs) => seq![1u8] + str_field(cs),
        None => seq![0u8],
    }
}

/// The encoding of an identifier: 16 little-endian bytes.
pub open spec fn id_field(id: u128) -> Seq<u8> {
    le_bytes(id as int, 16)
}

pub open spec fn id_list_items(ids: Seq<u128>) -> Seq<u8>
    decreases ids.len(),
{
    if ids.len() == 0 {
        Seq::empty()
    } else {
        id_field(ids[0]) + id_list_items(ids.drop_first())
    }
}

/// The encoding of an identifier list: a 4-byte count, then each identifier.
pub open spec fn id_list_field(ids: Seq<u128>) -> Seq<u8> {
    le_bytes(ids.len() as int, 4) + id_list_items(ids)
}

// ---------------------------------------------------------------------------
// Spec-level field readers, consuming from the front.
// ---------------------------------------------------------------------------

/// Reads a `k`-byte little-endian integer from the front of `buf`.
pub open spec fn take_le(buf: Seq<u8>, k: nat) -> Option<(int, Seq<u8>)> {
    if buf.len() >= k {
        Some((le_val(buf.take(k as int)), buf.skip(k as int)))
    } else {
        None
    }
}

/// Reads a byte field from the front of `buf`.
pub open spec fn take_bytes(buf: Seq<u8>) -> Option<(Seq<u8>, Seq<u8>)> {
    match take_le(buf, 4) {
        Some((n, rest)) => if n <= rest.len() {
            Some((rest.take(n), rest.skip(n)))
        } else {
            None
        },
        None => None,
    }
}

/// Reads a string field from the front of `buf`.
pub open spec fn take_str(buf: Seq<u8>) -> Option<(Seq<char>, Seq<u8>)> {
    match take_bytes(buf) {
        Some((bs, rest)) => if valid_utf8(bs) {
            Some((decode_utf8(bs), rest))
        } else {
            None
        },
        None => None,
    }
}

/// Reads an optional string field from the front of `buf`.
pub open spec fn take_opt_str(buf: Seq<u8>) -> Option<(Option<Seq<char>>, Seq<u8>)> {
    if buf.len() < 1 {
        None
    } else if buf[0] == 0u8 {
        Some((None, buf.skip(1)))
    } else if buf[0] == 1u8 {
        match take_str(buf.skip(1)) {
            Some((s, rest)) => Some((Some(s), rest)),
            None => None,
        }
    } else {
        None
    }
}

/// Reads an identifier from the front of `buf`.
pub open spec fn take_id(buf: Seq<u8>) -> Option<(u128, Seq<u8>)> {
    match take_le(buf, 16) {
        Some((v, rest)) => Some((v as u128, rest)),
        None => None,
    }
}

pub open spec fn take_id_items(buf: Seq<u8>, n: nat) -> Option<(Seq<u128>, Seq<u8>)>
    decreases n,
{
    if n == 0 {
        Some((Seq::empty(), buf))
    } else {
        match take_id(buf) {
            Some((id, rest)) => match take_id_items(rest, (n - 1) as nat) {
                Some((ids, tail)) => Some((seq![id] + ids, tail)),
                None => None,
            },
            None => None,
        }
    }
}

/// Reads an identifier list from the front of `buf`.
pub open spec fn take_id_list(buf: Seq<u8>) -> Option<(Seq<u128>, Seq<u8>)> {
    match take_le(buf, 4) {
        Some((n, rest)) => take_id_items(rest, n as nat),
        None => None,
    }
}

/// The encoding of a single byte value.
pub open spec fn u8_field(n: u8) -> Seq<u8> {
    seq![n]
}

/// Reads a single byte value from the front of `buf`.
pub open spec fn take_u8(buf: Seq<u8>) -> Option<(u8, Seq<u8>)> {
    if buf.len() >= 1 {
        Some((buf[0], buf.skip(1)))
    } else {
        None
    }
}

pub proof fn lemma_take_u8(n: u8, rest: Seq<u8>)
    ensures
        take_u8(u8_field(n) + rest) == Some((n, rest)),
{
    assert((u8_field(n) + rest).skip(1) =~= rest);
}

/// Appends a single byte field.
pub fn enc_u8(out: &mut Vec<u8>, n: u8)
    ensures
        final(out)@ == old(out)@ + u8_field(n),
{
    out.push(n);
    proof {
        assert(out@ =~= old(out)@ + u8_field(n));
    }
}

/// Reads a single byte field starting at `pos`.
pub fn dec_u8(buf: &Vec<u8>, pos: usize) -> (r: Option<(u8, usize)>)
    requires
        pos <= buf@.len(),
    ensures
        match r {
            Some((v, end)) => pos <= end <= buf@.len()
                && take_u8(buf@.skip(pos as int)) == Some((v, buf@.skip(end as int))),
            None => take_u8(buf@.skip(pos as int)) is None,
        },
{
    if pos >= buf.len() {
        return None;
    }
    proof {
        assert(buf@.skip(pos as int)[0] == buf@[pos as int]);
        assert(buf@.skip(pos as int).skip(1) =~= buf@.skip(pos + 1));
    }
    Some((buf[pos], pos + 1))
}

/// The encoding of a flag: one byte, zero or one.
pub open spec fn bool_field(b: bool) -> Seq<u8> {
    if b {
        seq![1u8]
    } else {
        seq![0u8]
    }
}

/// Reads a flag from the front of `buf`; any byte other than zero or one
/// is refused.
pub open spec fn take_bool(buf: Seq<u8>) -> Option<(bool, Seq<u8>)> {
    if buf.len() < 1 {
        None
    } else if buf[0] == 0u8 {
        Some((false, buf.skip(1)))
    } else if buf[0] == 1u8 {
        Some((true, buf.skip(1)))
    } else {
        None
    }
}

pub proof fn lemma_take_bool(b: bool, rest: Seq<u8>)
    ensures
        take_bool(bool_field(b) + rest) == Some((b, rest)),
{
    assert((bool_field(b) + rest).skip(1) =~= rest);
}

/// Appends a flag field.
pub fn enc_bool(out: &mut Vec<u8>, b: bool)
    ensures
        final(out)@ == old(out)@ + bool_field(b),
{
    if b {
        out.push(1u8);
    } else {
        out.push(0u8);
    }
    proof {
        assert(out@ =~= old(out)@ + bool_field(b));
    }
}

/// Reads a flag field starting at `pos`.
pub fn dec_bool(buf: &Vec<u8>, pos: usize) -> (r: Option<(bool, usize)>)
    requires
        pos <= buf@.len(),
    ensures
        match r {
            Some((v, end)) => pos <= end <= buf@.len()
                && take_bool(buf@.skip(pos as int)) == Some((v, buf@.skip(end as int))),
            None => take_bool(buf@.skip(pos as int)) is None,
        },
{
    if pos >= buf.len() {
        return None;
    }
    let b = buf[pos];
    proof {
        assert(buf@.skip(pos as int)[0] == buf@[pos as int]);
        assert(buf@.skip(pos as int).skip(1) =~= buf@.skip(pos + 1));
    }
    if b == 0 {
        Some((false, pos + 1))
    } else if b == 1 {
        Some((true, pos + 1))
    } else {
        None
    }
}

/// The encoding of a 32-bit value: 4 little-endian bytes.
pub open spec fn u32_field(n: u32) -> Seq<u8> {
    le_bytes(n as int, 4)
}

/// Reads a 32-bit value from the front of `buf`.
pub open spec fn take_u32(buf: Seq<u8>) -> Option<(u32, Seq<u8>)> {
    match take_le(buf, 4) {
        Some((v, rest)) => Some((v as u32, rest)),
        None => None,
    }
}

pub proof fn lemma_take_u32(n: u32, rest: Seq<u8>)
    ensures
        take_u32(u32_field(n) + rest) == Some((n, rest)),
{
    lemma_pow256_values();
    lemma_take_le(n as int, 4, rest);
}

/// Appends a 32-bit field.
pub fn enc_u32(out: &mut Vec<u8>, n: u32)
    ensures
        final(out)@ == old(out)@ + u32_field(n),
{
    enc_le(out, n as u128, 4);
}

/// Reads a 32-bit field starting at `pos`.
pub fn dec_u32(buf: &Vec<u8>, pos: usize) -> (r: Option<(u32, usize)>)
    requires
        pos <= buf@.len(),
    ensures
        match r {
            Some((v, end)) => pos <= end <= buf@.len()
                && take_u32(buf@.skip(pos as int))
                    == Some((v, buf@.skip(end as int))),
            None => take_u32(buf@.skip(pos as int)) is None,
        },
{
    match dec_le(buf, pos, 4) {
        Some((v, end)) => {
            proof {
                lemma_le_val_bound(buf@.skip(pos as int).take(4));
                lemma_pow256_values();
            }
            Some((v as u32, end))
        }
        None => None,
    }
}

/// The encoding of a 64-bit value: 8 little-endian bytes.
pub open spec fn u64_field(n: u64) -> Seq<u8> {
    le_bytes(n as int, 8)
}

/// Reads a 64-bit value from the front of `buf`.
pub open spec fn take_u64(buf: Seq<u8>) -> Option<(u64, Seq<u8>)> {
    match take_le(buf, 8) {
        Some((v, rest)) => Some((v as u64, rest)),
        None => None,
    }
}

pub proof fn lemma_take_u64(n: u64, rest: Seq<u8>)
    ensures
        take_u64(u64_field(n) + rest) == Some((n, rest)),
{
    lemma_pow256_values();
    lemma_take_le(n as int, 8, rest);
}

/// Appends a 64-bit field.
pub fn enc_u64(out: &mut Vec<u8>, n: u64)
    ensures
        final(out)@ == old(out)@ + u64_field(n),
{
    enc_le(out, n as u128, 8);
}

/// Reads a 64-bit field starting at `pos`.
pub fn dec_u64(buf: &Vec<u8>, pos: usize) -> (r: Option<(u64, usize)>)
    requires
        pos <= buf@.len(),
    ensures
        match r {
            Some((v, end)) => pos <= end <= buf@.len()
                && take_u64(buf@.skip(pos as int))
                    == Some((v, buf@.skip(end as int))),
            None => take_u64(buf@.skip(pos as int)) is None,
        },
{
    match dec_le(buf, pos, 8) {
        Some((v, end)) => {
            proof {
                lemma_le_val_bound(buf@.skip(pos as int).take(8));
                lemma_pow256_values();
            }
            Some((v as u64, end))
        }
        None => None,
    }
}

/// The encoding of a machine-sized count: 8 little-endian bytes.
pub open spec fn usize_field(n: usize) -> Seq<u8> {
    le_bytes(n as int, 8)
}

/// Reads a machine-sized count from the front of `buf`; a stored value too
/// large for this machine is refused.
pub open spec fn take_usize(buf: Seq<u8>) -> Option<(usize, Seq<u8>)> {
    match take_le(buf, 8) {
        Some((v, rest)) => if v <= usize::MAX as int {
            Some((v as usize, rest))
        } else {
            None
        },
        None => None,
    }
}

pub proof fn lemma_take_usize(n: usize, rest: Seq<u8>)
    ensures
        take_usize(usize_field(n) + rest) == Some((n, rest)),
{
    lemma_pow256_values();
    lemma_take_le(n as int, 8, rest);
}

/// Appends a machine-sized count field.
pub fn enc_usize(out: &mut Vec<u8>, n: usize)
    ensures
        final(out)@ == old(out)@ + usize_field(n),
{
    enc_le(out, n as u128, 8);
}

/// Reads a machine-sized count field starting at `pos`.
pub fn dec_usize(buf: &Vec<u8>, pos: usize) -> (r: Option<(usize, usize)>)
    requires
        pos <= buf@.len(),
    ensures
        match r {
            Some((v, end)) => pos <= end <= buf@.len()
                && take_usize(buf@.skip(pos as int))
                    == Some((v, buf@.skip(end as int))),
            None => take_usize(buf@.skip(pos as int)) is None,
        },
{
    match dec_le(buf, pos, 8) {
        Some((v, end)) => {
            if v <= usize::MAX as u128 {
                Some((v as usize, end))
            } else {
                None
            }
        }
        None => None,
    }
}

/// A string read from a buffer fits the wire length field when re-encoded.
pub proof fn lemma_take_str_len(buf: Seq<u8>)
    ensures
        take_str(buf) matches Some(p) ==> encode_utf8(p.0).len() < 0x100000000,
{
    match take_bytes(buf) {
        Some((bs, rest0)) => {
            match take_le(buf, 4) {
                Some((n, r0)) => {
                    lemma_le_val_bound(buf.take(4));
                    lemma_pow256_values();
                    assert(bs.len() == n);
                    if valid_utf8(bs) {
                        decode_utf8_encode_utf8(bs);
                    }
                }
                None => {}
            }
        }
        None => {}
    }
}

/// An optional string read from a buffer fits the wire length field when
/// re-encoded.
pub proof fn lemma_take_opt_str_len(buf: Seq<u8>)
    ensures
        take_opt_str(buf) matches Some(p) ==> match p.0 {
            Some(s) => encode_utf8(s).len() < 0x100000000,
            None => true,
        },
{
    if buf.len() >= 1 && buf[0] == 1u8 {
        lemma_take_str_len(buf.skip(1));
    }
}

proof fn lemma_take_id_items_count(buf: Seq<u8>, n: nat)
    ensures
        take_id_items(buf, n) matches Some(p) ==> p.0.len() == n,
    decreases n,
{
    if n > 0 {
        match take_id(buf) {
            Some((id, rest)) => {
                lemma_take_id_items_count(rest, (n - 1) as nat);
            }
            None => {}
        }
    }
}

/// An identifier list read from a buffer fits the wire count field when
/// re-encoded.
pub proof fn lemma_take_id_list_len(buf: Seq<u8>)
    ensures
        take_id_list(buf) matches Some(p) ==> p.0.len() < 0x100000000,
{
    match take_le(buf, 4) {
        Some((n, rest)) => {
            lemma_le_val_bound(buf.take(4));
            lemma_pow256_values();
            lemma_take_id_items_count(rest, n as nat);
        }
        None => {}
    }
}

// ---------------------------------------------------------------------------
// Round-trip proofs: reading an encoded field yields the value back.
// ---------------------------------------------------------------------------

pub proof fn lemma_take_le(n: int, k: nat, rest: Seq<u8>)
    requires
        0 <= n < pow256(k),
    ensures
        take_le(le_bytes(n, k) + rest, k) == Some((n, rest)),
{
    lemma_le_bytes_len(n, k);
    let buf = le_bytes(n, k) + rest;
    assert(buf.take(k as int) =~= le_bytes(n, k));
    assert(buf.skip(k as int) =~= rest);
    lemma_le_round_trip(n, k);
}

pub proof fn lemma_take_bytes(bs: Seq<u8>, rest: Seq<u8>)
    requires
        bs.len() < 0x100000000,
    ensures
        take_bytes(bytes_field(bs) + rest) == Some((bs, rest)),
{
    let buf = bytes_field(bs) + rest;
    assert(buf =~= le_bytes(bs.len() as int, 4) + (bs + rest));
    lemma_pow256_values();
    lemma_take_le(bs.len() as int, 4, bs + rest);
    assert((bs + rest).take(bs.len() as int) =~= bs);
    assert((bs + rest).skip(bs.len() as int) =~= rest);
}

pub proof fn lemma_take_str(s: Seq<char>, rest: Seq<u8>)
    requires
        encode_utf8(s).len() < 0x100000000,
    ensures
        take_str(str_field(s) + rest) == Some((s, rest)),
{
    assert(str_field(s) + rest =~= bytes_field(encode_utf8(s)) + rest);
    lemma_take_bytes(encode_utf8(s), rest);
    encode_utf8_valid_utf8(s);
    encode_utf8_decode_utf8(s);
}

pub proof fn lemma_take_opt_str(s: Option<Seq<char>>, rest: Seq<u8>)
    requires
        match s {
            Some(cs) => encode_utf8(cs).len() < 0x100000000,
            None => true,
        },
    ensures
        take_opt_str(opt_str_field(s) + rest) == Some((s, rest)),
{
    match s {
        Some(cs) => {
            let buf = opt_str_field(s) + rest;
            assert(buf[0] == 1u8);
            assert(buf.skip(1) =~= str_field(cs) + rest);
            lemma_take_str(cs, rest);
        }
        None => {
            let buf = opt_str_field(s) + rest;
            assert(buf[0] == 0u8);
            assert(buf.skip(1) =~= rest);
        }
    }
}

pub proof fn lemma_take_id(id: u128, rest: Seq<u8>)
    ensures
        take_id(id_field(id) + rest) == Some((id, rest)),
{
    lemma_pow256_values();
    lemma_take_le(id as int, 16, rest);
}

pub proof fn lemma_take_id_items(ids: Seq<u128>, rest: Seq<u8>)
    ensures
        take_id_items(id_list_items(ids) + rest, ids.len()) == Some((ids, rest)),
    decreases ids.len(),
{
    if ids.len() == 0 {
        assert(id_list_items(ids) + rest =~= rest);
        assert(take_id_items(rest, 0) == Some((Seq::<u128>::empty(), rest)));
        assert(ids =~= Seq::<u128>::empty());
    } else {
        let buf = id_list_items(ids) + rest;
        assert(buf =~= id_field(ids[0]) + (id_list_items(ids.drop_first()) + rest));
        lemma_take_id(ids[0], id_list_items(ids.drop_first()) + rest);
        lemma_take_id_items(ids.drop_first(), rest);
        assert(seq![ids[0]] + ids.drop_first() =~= ids);
    }
}

pub proof fn lemma_take_id_list(ids: Seq<u128>, rest: Seq<u8>)
    requires
        ids.len() < 0x100000000,
    ensures
        take_id_list(id_list_field(ids) + rest) == Some((ids, rest)),
{
    let buf = id_list_field(ids) + rest;
    assert(buf =~= le_bytes(ids.len() as int, 4) + (id_list_items(ids) + rest));
    lemma_pow256_values();
    lemma_take_le(ids.len() as int, 4, id_list_items(ids) + rest);
    lemma_take_id_items(ids, rest);
}

// ---------------------------------------------------------------------------
// Executable encoders. Each appends one field to the output buffer.
// ---------------------------------------------------------------------------

/// Appends the `k` little-endian bytes of `n`.
pub fn enc_le(out: &mut Vec<u8>, n: u128, k: u8)
    ensures
        final(out)@ == old(out)@ + le_bytes(n as int, k as nat),
    decreases k,
{
    if k == 0 {
        proof {
            assert(out@ =~= old(out)@ + le_bytes(n as int, 0));
        }
    } else {
        out.push((n % 256) as u8);
        enc_le(out, n / 256, k - 1);
        proof {
            assert(out@ =~= old(out)@ + le_bytes(n as int, k as nat));
        }
    }
}

/// Appends a byte field.
pub fn enc_bytes(out: &mut Vec<u8>, bs: &Vec<u8>)
    requires
        bs@.len() < 0x100000000,
    ensures
        final(out)@ == old(out)@ + bytes_field(bs@),
{
    enc_le(out, bs.len() as u128, 4);
    proof {
        assert(out@ =~= old(out)@ + le_bytes(bs@.len() as int, 4) + bs@.subrange(0, 0));
    }
    let mut i: usize = 0;
    while i < bs.len()
        invariant
            i <= bs@.len(),
            out@ == old(out)@ + le_bytes(bs@.len() as int, 4) + bs@.subrange(0, i as int),
        decreases bs@.len() - i,
    {
        out.push(bs[i]);
        i = i + 1;
        proof {
            assert(out@ =~= old(out)@ + le_bytes(bs@.len() as int, 4)
                + bs@.subrange(0, i as int));
        }
    }
    proof {
        assert(bs@.subrange(0, bs@.len() as int) =~= bs@);
        assert(out@ =~= old(out)@ + bytes_field(bs@));
    }
}

/// Appends a string field.
pub fn enc_str(out: &mut Vec<u8>, s: &String)
    requires
        encode_utf8(s@).len() < 0x100000000,
    ensures
        final(out)@ == old(out)@ + str_field(s@),
{
    let bs = s.as_str().as_bytes_vec();
    enc_bytes(out, &bs);
}

/// The view of an optional string.
pub open spec fn opt_str_view(s: Option<String>) -> Option<Seq<char>> {
    match s {
        Some(cs) => Some(cs@),
        None => None,
    }
}

/// Appends an optional string field.
pub fn enc_opt_str(out: &mut Vec<u8>, s: &Option<String>)
    requires
        match opt_str_view(*s) {
            Some(cs) => encode_utf8(cs).len() < 0x100000000,
            None => true,
        },
    ensures
        final(out)@ == old(out)@ + opt_str_field(opt_str_view(*s)),
{
    match s {
        Some(cs) => {
            out.push(1u8);
            enc_str(out, cs);
            proof {
                assert(out@ =~= old(out)@ + opt_str_field(Some(cs@)));
            }
        }
        None => {
            out.push(0u8);
            proof {
                assert(out@ =~= old(out)@ + opt_str_field(None::<Seq<char>>));
            }
        }
    }
}

/// Appends an identifier field.
pub fn enc_id(out: &mut Vec<u8>, id: u128)
    ensures
        final(out)@ == old(out)@ + id_field(id),
{
    enc_le(out, id, 16);
}

/// Appends an identifier list field.
pub fn enc_id_list(out: &mut Vec<u8>, ids: &Vec<u128>)
    requires
        ids@.len() < 0x100000000,
    ensures
        final(out)@ == old(out)@ + id_list_field(ids@),
{
    enc_le(out, ids.len() as u128, 4);
    proof {
        assert(ids@.subrange(0, 0) =~= Seq::<u128>::empty());
        assert(out@ =~= old(out)@ + le_bytes(ids@.len() as int, 4)
            + id_list_items(ids@.subrange(0, 0)));
    }
    let mut i: usize = 0;
    while i < ids.len()
        invariant
            i <= ids@.len(),
            out@ == old(out)@ + le_bytes(ids@.len() as int, 4)
                + id_list_items(ids@.subrange(0, i as int)),
        decreases ids@.len() - i,
    {
        proof {
            lemma_id_list_items_push(ids@.subrange(0, i as int), ids@[i as int]);
            assert(ids@.subrange(0, i + 1) =~= ids@.subrange(0, i as int).push(ids@[i as int]));
        }
        enc_id(out, ids[i]);
        i = i + 1;
        proof {
            assert(out@ =~= old(out)@ + le_bytes(ids@.len() as int, 4)
                + id_list_items(ids@.subrange(0, i as int)));
        }
    }
    proof {
        assert(ids@.subrange(0, ids@.len() as int) =~= ids@);
        assert(out@ =~= old(out)@ + id_list_field(ids@));
    }
}

proof fn lemma_id_list_items_push(ids: Seq<u128>, id: u128)
    ensures
        id_list_items(ids.push(id)) == id_list_items(ids) + id_field(id),
    decreases ids.len(),
{
    if ids.len() == 0 {
        assert(ids.push(id)[0] == id);
        assert(ids.push(id).drop_first() =~= Seq::<u128>::empty());
        assert(id_list_items(ids.push(id).drop_first()) =~= Seq::<u8>::empty());
        assert(id_list_items(ids.push(id)) =~= id_list_items(ids) + id_field(id));
    } else {
        assert(ids.push(id)[0] == ids[0]);
        assert(ids.push(id).drop_first() =~= ids.drop_first().push(id));
        lemma_id_list_items_push(ids.drop_first(), id);
        assert(id_list_items(ids.push(id))
            == id_field(ids[0]) + id_list_items(ids.drop_first().push(id)));
        assert(id_list_items(ids.push(id)) =~= id_list_items(ids) + id_field(id));
    }
}

// ---------------------------------------------------------------------------
// Executable decoders. Each reads one field at a position in the buffer and
// agrees with the spec-level reader applied to the remainder of the buffer.
// ---------------------------------------------------------------------------

/// Reads `k` little-endian bytes starting at `pos`.
pub fn dec_le(buf: &Vec<u8>, pos: usize, k: u8) -> (r: Option<(u128, usize)>)
    requires
        k <= 16,
        pos <= buf@.len(),
    ensures
        match r {
            Some((v, end)) => pos <= end <= buf@.len()
                && take_le(buf@.skip(pos as int), k as nat)
                    == Some((v as int, buf@.skip(end as int))),
            None => take_le(buf@.skip(pos as int), k as nat) is None,
        },
    decreases k,
{
    if k == 0 {
        proof {
            assert(buf@.skip(pos as int).take(0) =~= Seq::<u8>::empty());
            assert(buf@.skip(pos as int).skip(0) =~= buf@.skip(pos as int));
        }
        Some((0, pos))
    } else {
        if pos >= buf.len() {
            return None;
        }
        let b = buf[pos];
        match dec_le(buf, pos + 1, k - 1) {
            Some((hi, end)) => {
                proof {
                    let whole = buf@.skip(pos as int);
                    let tail = buf@.skip(pos + 1);
                    assert(whole.skip(1) =~= tail);
                    assert(whole.take(k as int).drop_first() =~= tail.take(k - 1));
                    assert(tail.skip(k - 1) =~= whole.skip(k as int));
                    lemma_le_val_bound(tail.take(k - 1));
                    lemma_pow256_le((k - 1) as nat, 15);
                    lemma_pow256_values();
                    assert(whole.take(k as int)[0] == b);
                }
                let v = (b as u128) + 256 * hi;
                Some((v, end))
            }
            None => None,
        }
    }
}

/// Reads a byte field starting at `pos`.
pub fn dec_bytes(buf: &Vec<u8>, pos: usize) -> (r: Option<(Vec<u8>, usize)>)
    requires
        pos <= buf@.len(),
    ensures
        match r {
            Some((bs, end)) => pos <= end <= buf@.len()
                && take_bytes(buf@.skip(pos as int))
                    == Some((bs@, buf@.skip(end as int))),
            None => take_bytes(buf@.skip(pos as int)) is None,
        },
{
    match dec_le(buf, pos, 4) {
        Some((n, body)) => {
            proof {
                lemma_le_val_bound(buf@.skip(pos as int).take(4));
                lemma_pow256_values();
            }
            let n = n as usize;
            let blen = buf.len();
            if n > blen - body {
                return None;
            }
            let mut bs: Vec<u8> = Vec::new();
            let mut i: usize = 0;
            while i < n
                invariant
                    i <= n,
                    blen == buf@.len(),
                    body + n <= blen,
                    bs@ == buf@.subrange(body as int, body + i),
                decreases n - i,
            {
                bs.push(buf[body + i]);
                i = i + 1;
                proof {
                    assert(bs@ =~= buf@.subrange(body as int, body + i));
                }
            }
            proof {
                assert(buf@.skip(body as int).take(n as int)
                    =~= buf@.subrange(body as int, body + n as int));
                assert(buf@.skip(body as int).skip(n as int)
                    =~= buf@.skip(body + n as int));
            }
            Some((bs, body + n))
        }
        None => None,
    }
}

/// Reads a string field starting at `pos`.
pub fn dec_str(buf: &Vec<u8>, pos: usize) -> (r: Option<(String, usize)>)
    requires
        pos <= buf@.len(),
    ensures
        match r {
            Some((s, end)) => pos <= end <= buf@.len()
                && take_str(buf@.skip(pos as int))
                    == Some((s@, buf@.skip(end as int))),
            None => take_str(buf@.skip(pos as int)) is None,
        },
{
    match dec_bytes(buf, pos) {
        Some((bs, end)) => match bytes_to_str(&bs) {
            Some(s) => Some((s.to_owned(), end)),
            None => None,
        },
        None => None,
    }
}

/// Reads an optional string field starting at `pos`.
pub fn dec_opt_str(buf: &Vec<u8>, pos: usize) -> (r: Option<(Option<String>, usize)>)
    requires
        pos <= buf@.len(),
    ensures
        match r {
            Some((s, end)) => pos <= end <= buf@.len()
                && take_opt_str(buf@.skip(pos as int))
                    == Some((opt_str_view(s), buf@.skip(end as int))),
            None => take_opt_str(buf@.skip(pos as int)) is None,
        },
{
    if pos >= buf.len() {
        return None;
    }
    let tag = buf[pos];
    if tag == 0 {
        proof {
            assert(buf@.skip(pos as int)[0] == 0u8);
            assert(buf@.skip(pos as int).skip(1) =~= buf@.skip(pos + 1));
        }
        Some((None, pos + 1))
    } else if tag == 1 {
        proof {
            assert(buf@.skip(pos as int)[0] == 1u8);
            assert(buf@.skip(pos as int).skip(1) =~= buf@.skip(pos + 1));
        }
        match dec_str(buf, pos + 1) {
            Some((s, end)) => Some((Some(s), end)),
            None => None,
        }
    } else {
        proof {
            assert(buf@.skip(pos as int)[0] != 0u8 && buf@.skip(pos as int)[0] != 1u8);
        }
        None
    }
}

/// Reads an identifier field starting at `pos`.
pub fn dec_id(buf: &Vec<u8>, pos: usize) -> (r: Option<(u128, usize)>)
    requires
        pos <= buf@.len(),
    ensures
        match r {
            Some((id, end)) => pos <= end <= buf@.len()
                && take_id(buf@.skip(pos as int))
                    == Some((id, buf@.skip(end as int))),
            None => take_id(buf@.skip(pos as int)) is None,
        },
{
    match dec_le(buf, pos, 16) {
        Some((v, end)) => {
            proof {
                lemma_le_val_bound(buf@.skip(pos as int).take(16));
                lemma_pow256_values();
            }
            Some((v, end))
        }
        None => None,
    }
}

/// Reads an identifier list field starting at `pos`.
pub fn dec_id_list(buf: &Vec<u8>, pos: usize) -> (r: Option<(Vec<u128>, usize)>)
    requires
        pos <= buf@.len(),
    ensures
        match r {
            Some((ids, end)) => pos <= end <= buf@.len()
                && take_id_list(buf@.skip(pos as int))
                    == Some((ids@, buf@.skip(end as int))),
            None => take_id_list(buf@.skip(pos as int)) is None,
        },
{
    match dec_le(buf, pos, 4) {
        Some((n, body)) => {
            proof {
                assert(take_le(buf@.skip(pos as int), 4)
                    == Some((n as int, buf@.skip(body as int))));
                assert(n as int == le_val(buf@.skip(pos as int).take(4)));
                lemma_le_val_bound(buf@.skip(pos as int).take(4));
                lemma_pow256_values();
                assert(n < 0x100000000u128);
            }
            let count = n as usize;
            let mut ids: Vec<u128> = Vec::new();
            let mut i: usize = 0;
            let mut cur: usize = body;
            while i < count
                invariant
                    i <= count,
                    pos <= cur <= buf@.len(),
                    count as nat == n as nat,
                    take_le(buf@.skip(pos as int), 4)
                        == Some((n as int, buf@.skip(body as int))),
                    take_id_items(buf@.skip(body as int), count as nat)
                        == with_prefix(ids@, take_id_items(buf@.skip(cur as int),
                            (count - i) as nat)),
                decreases count - i,
            {
                match dec_id(buf, cur) {
                    Some((id, end)) => {
                        proof {
                            lemma_take_id_items_step(buf@.skip(cur as int), id,
                                buf@.skip(end as int), (count - i) as nat, ids@);
                        }
                        ids.push(id);
                        cur = end;
                        i = i + 1;
                    }
                    None => {
                        proof {
                            assert(take_id_items(buf@.skip(cur as int), (count - i) as nat)
                                is None);
                            assert(take_id_items(buf@.skip(body as int), count as nat) is None);
                            assert(n as nat == count as nat);
                            assert(take_id_list(buf@.skip(pos as int)) is None);
                        }
                        return None;
                    }
                }
            }
            proof {
                assert(take_id_items(buf@.skip(cur as int), 0)
                    == Some((Seq::<u128>::empty(), buf@.skip(cur as int))));
                assert(ids@ + Seq::<u128>::empty() =~= ids@);
                assert(n as nat == count as nat);
            }
            Some((ids, cur))
        }
        None => None,
    }
}

/// Prepends already-read identifiers onto the outcome of reading the rest.
pub open spec fn with_prefix(acc: Seq<u128>, r: Option<(Seq<u128>, Seq<u8>)>)
    -> Option<(Seq<u128>, Seq<u8>)> {
    match r {
        Some(p) => Some((acc + p.0, p.1)),
        None => None,
    }
}

proof fn lemma_take_id_items_step(buf: Seq<u8>, id: u128, rest: Seq<u8>, n: nat, acc: Seq<u128>)
    requires
        n >= 1,
        take_id(buf) == Some((id, rest)),
    ensures
        with_prefix(acc, take_id_items(buf, n))
            == with_prefix(acc.push(id), take_id_items(rest, (n - 1) as nat)),
{
    match take_id_items(rest, (n - 1) as nat) {
        Some((ids, tail)) => {
            assert(take_id_items(buf, n) == Some((seq![id] + ids, tail)));
            assert(acc + (seq![id] + ids) =~= acc.push(id) + ids);
        }
        None => {
            assert(take_id_items(buf, n) is None);
        }
    }
}

} // verus!
