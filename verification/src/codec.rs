//! Canonical, deterministic, order-fixed binary codec for the signed
//! envelope.
//!
//! The encoding of an envelope is
//! `scope_byte || timestamp_le_u64 || payload`, where the payload writes
//! each field in declaration order: every byte-string field as a canonical
//! ULEB128 length prefix followed by the raw bytes, every integer as eight
//! little-endian bytes. The encoder performs no semantic validation: it is a
//! pure structural transform, and its output is exactly what gets signed.
//!
//! The decoder accepts exactly the canonical encodings: length prefixes must
//! be minimal ULEB128 and fit in 64 bits, and the input must be consumed
//! entirely.

use vstd::prelude::*;

use crate::types::DatasetVerification;
use crate::types::DatasetVerificationModel;
use crate::types::IntentMessage;
use crate::types::IntentMessageModel;
use crate::types::IntentScope;
use crate::types::scope_byte;

verus! {

/// 128 raised to `e`.
pub open spec fn pow128(e: nat) -> nat
    decreases e,
{
    if e == 0 {
        1
    } else {
        128 * pow128((e - 1) as nat)
    }
}

/// 256 raised to `e`.
pub open spec fn pow256(e: nat) -> nat
    decreases e,
{
    if e == 0 {
        1
    } else {
        256 * pow256((e - 1) as nat)
    }
}

/// Canonical (minimal) ULEB128 encoding of `n`: seven value bits per byte,
/// least significant group first, the high bit marking continuation.
pub open spec fn uleb128(n: nat) -> Seq<u8>
    decreases n,
{
    if n < 128 {
        seq![n as u8]
    } else {
        seq![(n % 128 + 128) as u8] + uleb128(n / 128)
    }
}

/// `count` little-endian bytes of `v`.
pub open spec fn le_bytes(v: nat, count: nat) -> Seq<u8>
    decreases count,
{
    if count == 0 {
        Seq::empty()
    } else {
        seq![(v % 256) as u8] + le_bytes(v / 256, (count - 1) as nat)
    }
}

/// The eight little-endian bytes of a 64-bit integer.
pub open spec fn u64_le(v: u64) -> Seq<u8> {
    le_bytes(v as nat, 8)
}

/// A length-prefixed byte-string field: minimal ULEB128 of the length,
/// then the raw bytes.
pub open spec fn enc_bytes(b: Seq<u8>) -> Seq<u8> {
    uleb128(b.len()) + b
}

/// Canonical encoding of a payload: each field in declaration order.
pub open spec fn enc_payload(p: DatasetVerificationModel) -> Seq<u8> {
    enc_bytes(p.dataset_id) + enc_bytes(p.name) + enc_bytes(p.description) + enc_bytes(p.format)
        + u64_le(p.size) + enc_bytes(p.original_hash) + enc_bytes(p.walrus_blob_id) + enc_bytes(
        p.seal_policy_id,
    ) + u64_le(p.timestamp) + enc_bytes(p.uploader)
}

/// Canonical encoding of the whole envelope: scope byte, then timestamp,
/// then payload, with nothing appended or prepended.
pub open spec fn enc_message(m: IntentMessageModel) -> Seq<u8> {
    seq![scope_byte(m.intent)] + u64_le(m.timestamp_ms) + enc_payload(m.data)
}

/// Appends the canonical ULEB128 encoding of `n`.
fn push_uleb128(out: &mut Vec<u8>, n: u64)
    ensures
        final(out)@ == old(out)@ + uleb128(n as nat),
{
    let mut x = n;
    while x >= 128
        invariant
            out@ + uleb128(x as nat) == old(out)@ + uleb128(n as nat),
        decreases x,
    {
        let ghost x0 = x as nat;
        out.push((x % 128 + 128) as u8);
        x = x / 128;
        proof {
            assert(uleb128(x0) == seq![(x0 % 128 + 128) as u8] + uleb128(x0 / 128));
            assert(out@ + uleb128(x as nat) =~= old(out)@ + uleb128(n as nat));
        }
    }
    out.push(x as u8);
    proof {
        assert(uleb128(x as nat) == seq![x as u8]);
        assert(final(out)@ =~= old(out)@ + uleb128(n as nat));
    }
}

/// Appends the eight little-endian bytes of `v`.
fn push_u64_le(out: &mut Vec<u8>, v: u64)
    ensures
        final(out)@ == old(out)@ + u64_le(v),
{
    let mut x = v;
    let mut k: usize = 0;
    while k < 8
        invariant
            k <= 8,
            out@ + le_bytes(x as nat, (8 - k) as nat) == old(out)@ + le_bytes(v as nat, 8),
        decreases 8 - k,
    {
        let ghost x0 = x as nat;
        let ghost left = (8 - k) as nat;
        out.push((x % 256) as u8);
        x = x / 256;
        k = k + 1;
        proof {
            assert(le_bytes(x0, left) == seq![(x0 % 256) as u8] + le_bytes(x0 / 256, (left - 1) as nat));
            assert(out@ + le_bytes(x as nat, (8 - k) as nat) =~= old(out)@ + le_bytes(v as nat, 8));
        }
    }
    proof {
        assert(le_bytes(x as nat, 0) == Seq::<u8>::empty());
        assert(out@ =~= old(out)@ + u64_le(v));
    }
}

/// Appends a length-prefixed byte-string field.
fn push_length_prefixed(out: &mut Vec<u8>, b: &Vec<u8>)
    ensures
        final(out)@ == old(out)@ + enc_bytes(b@),
{
    push_uleb128(out, b.len() as u64);
    let ghost mid = out@;
    let n = b.len();
    let mut i: usize = 0;
    while i < n
        invariant
            i <= n,
            n == b@.len(),
            out@ == mid + b@.subrange(0, i as int),
            mid == old(out)@ + uleb128(b@.len()),
        decreases n - i,
    {
        out.push(b[i]);
        i = i + 1;
        proof {
            assert(out@ =~= mid + b@.subrange(0, i as int));
        }
    }
    proof {
        assert(b@.subrange(0, n as int) =~= b@);
        assert(out@ =~= old(out)@ + enc_bytes(b@));
    }
}

/// Encodes a payload alone: each field in declaration order, byte strings
/// length-prefixed, integers fixed-width little-endian.
pub fn encode_dataset_verification(p: &DatasetVerification) -> (r: Vec<u8>)
    ensures
        r@ == enc_payload(p@),
{
    let mut out: Vec<u8> = Vec::new();
    push_length_prefixed(&mut out, &p.dataset_id);
    push_length_prefixed(&mut out, &p.name);
    push_length_prefixed(&mut out, &p.description);
    push_length_prefixed(&mut out, &p.format);
    push_u64_le(&mut out, p.size);
    push_length_prefixed(&mut out, &p.original_hash);
    push_length_prefixed(&mut out, &p.walrus_blob_id);
    push_length_prefixed(&mut out, &p.seal_policy_id);
    push_u64_le(&mut out, p.timestamp);
    push_length_prefixed(&mut out, &p.uploader);
    proof {
        assert(out@ =~= enc_payload(p@));
    }
    out
}

/// Encodes a scope alone: its single stable discriminant byte.
pub fn encode_intent_scope(scope: IntentScope) -> (r: Vec<u8>)
    ensures
        r@ == seq![scope_byte(scope)],
        scope == IntentScope::ProcessData ==> r@ == seq![0u8],
{
    let mut out: Vec<u8> = Vec::new();
    match scope {
        IntentScope::ProcessData => out.push(0u8),
    }
    proof {
        assert(out@ =~= seq![scope_byte(scope)]);
    }
    out
}

/// Parses one ULEB128 integer, returning its value and the remaining bytes.
///
/// Only canonical encodings are accepted: when the group is not the first of
/// its integer (`first` is false), a final group of zero would be a
/// non-minimal encoding and is rejected.
pub open spec fn parse_uleb128(b: Seq<u8>, first: bool) -> Option<(nat, Seq<u8>)>
    decreases b.len(),
{
    if b.len() == 0 {
        None
    } else if b[0] < 128 {
        if !first && b[0] == 0 {
            None
        } else {
            Some((b[0] as nat, b.drop_first()))
        }
    } else {
        match parse_uleb128(b.drop_first(), false) {
            Some(nr) => Some(((b[0] - 128) as nat + 128 * nr.0, nr.1)),
            None => None,
        }
    }
}

/// Parses a length prefix: a canonical ULEB128 integer that fits in 64 bits.
pub open spec fn parse_len(b: Seq<u8>) -> Option<(nat, Seq<u8>)> {
    match parse_uleb128(b, true) {
        Some(nr) => if nr.0 < 0x10000000000000000 {
            Some(nr)
        } else {
            None
        },
        None => None,
    }
}

/// Parses a length-prefixed byte-string field.
pub open spec fn parse_bytes(b: Seq<u8>) -> Option<(Seq<u8>, Seq<u8>)> {
    match parse_len(b) {
        Some(nr) => if nr.1.len() >= nr.0 {
            Some((nr.1.take(nr.0 as int), nr.1.skip(nr.0 as int)))
        } else {
            None
        },
        None => None,
    }
}

/// Value of a little-endian byte sequence.
pub open spec fn le_val(b: Seq<u8>) -> nat
    decreases b.len(),
{
    if b.len() == 0 {
        0
    } else {
        (b[0] + 256 * le_val(b.drop_first())) as nat
    }
}

/// Parses a fixed-width little-endian 64-bit integer.
pub open spec fn parse_u64(b: Seq<u8>) -> Option<(u64, Seq<u8>)> {
    if b.len() >= 8 {
        Some((le_val(b.take(8)) as u64, b.skip(8)))
    } else {
        None
    }
}

/// Parses the scope discriminant byte.
pub open spec fn parse_scope(b: Seq<u8>) -> Option<(IntentScope, Seq<u8>)> {
    if b.len() >= 1 && b[0] == 0 {
        Some((IntentScope::ProcessData, b.drop_first()))
    } else {
        None
    }
}

/// Parses a payload: each field in declaration order, returning the
/// remaining bytes.
pub open spec fn dec_payload(b: Seq<u8>) -> Option<(DatasetVerificationModel, Seq<u8>)> {
    match parse_bytes(b) {
        Some((dataset_id, b)) => match parse_bytes(b) {
            Some((name, b)) => match parse_bytes(b) {
                Some((description, b)) => match parse_bytes(b) {
                    Some((format, b)) => match parse_u64(b) {
                        Some((size, b)) => match parse_bytes(b) {
                            Some((original_hash, b)) => match parse_bytes(b) {
                                Some((walrus_blob_id, b)) => match parse_bytes(b) {
                                    Some((seal_policy_id, b)) => match parse_u64(b) {
                                        Some((timestamp, b)) => match parse_bytes(b) {
                                            Some((uploader, b)) => Some(
                                                (
                                                    DatasetVerificationModel {
                                                        dataset_id,
                                                        name,
                                                        description,
                                                        format,
                                                        size,
                                                        original_hash,
                                                        walrus_blob_id,
                                                        seal_policy_id,
                                                        timestamp,
                                                        uploader,
                                                    },
                                                    b,
                                                ),
                                            ),
                                            None => None,
                                        },
                                        None => None,
                                    },
                                    None => None,
                                },
                                None => None,
                            },
                            None => None,
                        },
                        None => None,
                    },
                    None => None,
                },
                None => None,
            },
            None => None,
        },
        None => None,
    }
}

/// Decodes a payload that must span the input exactly.
pub open spec fn dec_payload_exact(b: Seq<u8>) -> Option<DatasetVerificationModel> {
    match dec_payload(b) {
        Some((p, rest)) => if rest.len() == 0 {
            Some(p)
        } else {
            None
        },
        None => None,
    }
}

/// Decodes a whole envelope that must span the input exactly.
pub open spec fn dec_message(b: Seq<u8>) -> Option<IntentMessageModel> {
    match parse_scope(b) {
        Some((intent, b)) => match parse_u64(b) {
            Some((timestamp_ms, b)) => match dec_payload(b) {
                Some((data, b)) => if b.len() == 0 {
                    Some(IntentMessageModel { intent, timestamp_ms, data })
                } else {
                    None
                },
                None => None,
            },
            None => None,
        },
        None => None,
    }
}

/// Every variable-length field is short enough for its length prefix to fit
/// in 64 bits; holds of the view of any payload held in memory.
pub open spec fn payload_wf(p: DatasetVerificationModel) -> bool {
    &&& p.dataset_id.len() < 0x10000000000000000
    &&& p.name.len() < 0x10000000000000000
    &&& p.description.len() < 0x10000000000000000
    &&& p.format.len() < 0x10000000000000000
    &&& p.original_hash.len() < 0x10000000000000000
    &&& p.walrus_blob_id.len() < 0x10000000000000000
    &&& p.uploader.len() < 0x10000000000000000
    &&& p.seal_policy_id.len() < 0x10000000000000000
}

/// A canonical ULEB128 encoding parses back to the value it encodes, leaving
/// the trailing bytes untouched.
proof fn lemma_parse_uleb128_roundtrip(n: nat, rest: Seq<u8>, first: bool)
    requires
        first || n > 0,
    ensures
        parse_uleb128(uleb128(n) + rest, first) == Some((n, rest)),
    decreases n,
{
    let s = uleb128(n) + rest;
    if n < 128 {
        assert(uleb128(n) == seq![n as u8]);
        assert(s[0] == n as u8);
        assert(s.drop_first() =~= rest);
    } else {
        assert(uleb128(n) == seq![(n % 128 + 128) as u8] + uleb128(n / 128));
        assert(s[0] == (n % 128 + 128) as u8);
        assert(s[0] >= 128);
        assert(s.drop_first() =~= uleb128(n / 128) + rest);
        assert(n / 128 > 0);
        lemma_parse_uleb128_roundtrip(n / 128, rest, false);
        vstd::arithmetic::div_mod::lemma_fundamental_div_mod(n as int, 128);
        assert((s[0] - 128) as nat + 128 * (n / 128) == n);
    }
}

/// A value parsed past the first group is at least one: the final group of a
/// canonical encoding is never zero.
proof fn lemma_parse_uleb128_positive(b: Seq<u8>)
    ensures
        parse_uleb128(b, false) matches Some(nr) ==> nr.0 >= 1,
    decreases b.len(),
{
    if b.len() > 0 && b[0] >= 128 {
        lemma_parse_uleb128_positive(b.drop_first());
    }
}

proof fn lemma_pow128_pos(e: nat)
    ensures
        pow128(e) >= 1,
    decreases e,
{
    if e > 0 {
        lemma_pow128_pos((e - 1) as nat);
    }
}

proof fn lemma_pow128_mono(a: nat, b: nat)
    requires
        a <= b,
    ensures
        pow128(a) <= pow128(b),
    decreases b,
{
    if a < b {
        lemma_pow128_mono(a, (b - 1) as nat);
        lemma_pow128_pos((b - 1) as nat);
    }
}

proof fn lemma_pow256_pos(e: nat)
    ensures
        pow256(e) >= 1,
    decreases e,
{
    if e > 0 {
        lemma_pow256_pos((e - 1) as nat);
    }
}

proof fn lemma_pow256_mono(a: nat, b: nat)
    requires
        a <= b,
    ensures
        pow256(a) <= pow256(b),
    decreases b,
{
    if a < b {
        lemma_pow256_mono(a, (b - 1) as nat);
        lemma_pow256_pos((b - 1) as nat);
    }
}

/// A little-endian byte sequence is worth less than 256 to its length.
proof fn lemma_le_val_bound(b: Seq<u8>)
    ensures
        le_val(b) < pow256(b.len()),
    decreases b.len(),
{
    if b.len() > 0 {
        lemma_le_val_bound(b.drop_first());
        assert(pow256(b.len()) == 256 * pow256(b.drop_first().len()));
    }
}

/// The little-endian bytes of a value in range read back as that value.
proof fn lemma_le_bytes_val(v: nat, count: nat)
    requires
        v < pow256(count),
    ensures
        le_bytes(v, count).len() == count,
        le_val(le_bytes(v, count)) == v,
    decreases count,
{
    if count == 0 {
        assert(le_bytes(v, 0) == Seq::<u8>::empty());
    } else {
        assert(pow256(count) == 256 * pow256((count - 1) as nat));
        vstd::arithmetic::div_mod::lemma_fundamental_div_mod(v as int, 256);
        assert(v / 256 < pow256((count - 1) as nat)) by {
            if v / 256 >= pow256((count - 1) as nat) {
                assert(v >= 256 * (v / 256)) by {
                    vstd::arithmetic::div_mod::lemma_fundamental_div_mod(v as int, 256);
                };
                assert(256 * (v / 256) >= 256 * pow256((count - 1) as nat)) by (nonlinear_arith)
                    requires
                        v / 256 >= pow256((count - 1) as nat),
                ;
            }
        };
        lemma_le_bytes_val(v / 256, (count - 1) as nat);
        let s = le_bytes(v, count);
        assert(s == seq![(v % 256) as u8] + le_bytes(v / 256, (count - 1) as nat));
        assert(s.drop_first() =~= le_bytes(v / 256, (count - 1) as nat));
        assert(le_val(s) == (v % 256) + 256 * le_val(s.drop_first()));
    }
}

/// Eight little-endian bytes of a 64-bit value parse back to it.
proof fn lemma_parse_u64_roundtrip(v: u64, rest: Seq<u8>)
    ensures
        parse_u64(u64_le(v) + rest) == Some((v, rest)),
{
    assert(pow256(8) == 0x10000000000000000) by {
        reveal_with_fuel(pow256, 9);
    };
    lemma_le_bytes_val(v as nat, 8);
    let s = u64_le(v) + rest;
    assert(s.take(8) =~= u64_le(v));
    assert(s.skip(8) =~= rest);
}

/// A length-prefixed field parses back to the bytes it encodes.
proof fn lemma_parse_bytes_roundtrip(data: Seq<u8>, rest: Seq<u8>)
    requires
        data.len() < 0x10000000000000000,
    ensures
        parse_bytes(enc_bytes(data) + rest) == Some((data, rest)),
{
    lemma_parse_uleb128_roundtrip(data.len(), data + rest, true);
    assert(enc_bytes(data) + rest =~= uleb128(data.len()) + (data + rest));
    assert((data + rest).take(data.len() as int) =~= data);
    assert((data + rest).skip(data.len() as int) =~= rest);
}

/// A canonically encoded payload decodes back to the original field values
/// exactly, leaving the trailing bytes untouched.
#[verifier::rlimit(60)]
proof fn lemma_dec_payload_roundtrip(p: DatasetVerificationModel, rest: Seq<u8>)
    requires
        payload_wf(p),
    ensures
        dec_payload(enc_payload(p) + rest) == Some((p, rest)),
{
    let f1 = enc_bytes(p.dataset_id);
    let f2 = enc_bytes(p.name);
    let f3 = enc_bytes(p.description);
    let f4 = enc_bytes(p.format);
    let f5 = u64_le(p.size);
    let f6 = enc_bytes(p.original_hash);
    let f7 = enc_bytes(p.walrus_blob_id);
    let f8 = enc_bytes(p.seal_policy_id);
    let f9 = u64_le(p.timestamp);
    let f10 = enc_bytes(p.uploader);
    let t9 = f10 + rest;
    let t8 = f9 + t9;
    let t7 = f8 + t8;
    let t6 = f7 + t7;
    let t5 = f6 + t6;
    let t4 = f5 + t5;
    let t3 = f4 + t4;
    let t2 = f3 + t3;
    let t1 = f2 + t2;
    let p2 = f1 + f2;
    let p3 = p2 + f3;
    let p4 = p3 + f4;
    let p5 = p4 + f5;
    let p6 = p5 + f6;
    let p7 = p6 + f7;
    let p8 = p7 + f8;
    let p9 = p8 + f9;
    assert(enc_payload(p) == p9 + f10);
    vstd::seq_lib::lemma_concat_associative(p9, f10, rest);
    vstd::seq_lib::lemma_concat_associative(p8, f9, t9);
    vstd::seq_lib::lemma_concat_associative(p7, f8, t8);
    vstd::seq_lib::lemma_concat_associative(p6, f7, t7);
    vstd::seq_lib::lemma_concat_associative(p5, f6, t6);
    vstd::seq_lib::lemma_concat_associative(p4, f5, t5);
    vstd::seq_lib::lemma_concat_associative(p3, f4, t4);
    vstd::seq_lib::lemma_concat_associative(p2, f3, t3);
    vstd::seq_lib::lemma_concat_associative(f1, f2, t2);
    assert(enc_payload(p) + rest == f1 + t1);
    lemma_parse_bytes_roundtrip(p.dataset_id, t1);
    lemma_parse_bytes_roundtrip(p.name, t2);
    lemma_parse_bytes_roundtrip(p.description, t3);
    lemma_parse_bytes_roundtrip(p.format, t4);
    lemma_parse_u64_roundtrip(p.size, t5);
    lemma_parse_bytes_roundtrip(p.original_hash, t6);
    lemma_parse_bytes_roundtrip(p.walrus_blob_id, t7);
    lemma_parse_bytes_roundtrip(p.seal_policy_id, t8);
    lemma_parse_u64_roundtrip(p.timestamp, t9);
    lemma_parse_bytes_roundtrip(p.uploader, rest);
}

/// Round-trip law for payloads: decoding a canonical payload encoding
/// reproduces the original field values exactly.
pub proof fn lemma_payload_roundtrip(p: DatasetVerificationModel)
    requires
        payload_wf(p),
    ensures
        dec_payload_exact(enc_payload(p)) == Some(p),
{
    lemma_dec_payload_roundtrip(p, Seq::<u8>::empty());
    assert(enc_payload(p) + Seq::<u8>::empty() =~= enc_payload(p));
}

/// Round-trip law for envelopes: decoding a canonically encoded envelope
/// reproduces the original scope, timestamp and payload exactly.
pub proof fn lemma_message_roundtrip(m: IntentMessageModel)
    requires
        payload_wf(m.data),
    ensures
        dec_message(enc_message(m)) == Some(m),
{
    let s = enc_message(m);
    let t1 = u64_le(m.timestamp_ms) + enc_payload(m.data);
    assert(s =~= seq![scope_byte(m.intent)] + t1);
    assert(s[0] == scope_byte(m.intent));
    assert(s[0] == 0);
    assert(s.drop_first() =~= t1);
    lemma_parse_u64_roundtrip(m.timestamp_ms, enc_payload(m.data));
    lemma_dec_payload_roundtrip(m.data, Seq::<u8>::empty());
    assert(enc_payload(m.data) + Seq::<u8>::empty() =~= enc_payload(m.data));
}

/// Sensitivity law for payloads: the canonical payload encoding is
/// injective, so changing any field value changes the encoded bytes.
pub proof fn lemma_payload_encoding_injective(a: DatasetVerificationModel, b: DatasetVerificationModel)
    requires
        payload_wf(a),
        payload_wf(b),
        enc_payload(a) == enc_payload(b),
    ensures
        a == b,
{
    lemma_payload_roundtrip(a);
    lemma_payload_roundtrip(b);
}

/// Sensitivity law for envelopes: the canonical envelope encoding is
/// injective, so changing the scope, the timestamp or any payload field
/// changes the encoded bytes.
pub proof fn lemma_message_encoding_injective(a: IntentMessageModel, b: IntentMessageModel)
    requires
        payload_wf(a.data),
        payload_wf(b.data),
        enc_message(a) == enc_message(b),
    ensures
        a == b,
{
    lemma_message_roundtrip(a);
    lemma_message_roundtrip(b);
}

/// Encodes the whole envelope; the result is exactly the byte sequence that
/// gets signed.
pub fn encode_intent_message(m: &IntentMessage) -> (r: Vec<u8>)
    ensures
        r@ == enc_message(m@),
{
    let mut out: Vec<u8> = Vec::new();
    match m.intent {
        IntentScope::ProcessData => out.push(0u8),
    }
    push_u64_le(&mut out, m.timestamp_ms);
    let mut payload = encode_dataset_verification(&m.data);
    out.append(&mut payload);
    proof {
        assert(out@ =~= enc_message(m@));
    }
    out
}

/// Reads one canonical 64-bit length prefix starting at `pos`, returning the
/// value and the position after it.
fn read_len(b: &Vec<u8>, pos: usize) -> (r: Option<(u64, usize)>)
    requires
        pos <= b@.len(),
    ensures
        match r {
            Some(v) => {
                &&& parse_len(b@.skip(pos as int)) == Some((v.0 as nat, b@.skip(v.1 as int)))
                &&& pos < v.1 <= b@.len()
            },
            None => parse_len(b@.skip(pos as int)) is None,
        },
{
    let mut i = pos;
    let mut acc: u64 = 0;
    let mut mult: u64 = 1;
    loop
        invariant
            pos <= i <= b@.len(),
            i - pos <= 9,
            mult == pow128((i - pos) as nat),
            acc < mult,
            mult <= 0x8000000000000000,
            parse_uleb128(b@.skip(i as int), i == pos) matches Some(nr) ==> parse_uleb128(
                b@.skip(pos as int),
                true,
            ) == Some(((acc + mult * nr.0) as nat, nr.1)),
            parse_uleb128(b@.skip(i as int), i == pos) is None ==> parse_uleb128(
                b@.skip(pos as int),
                true,
            ) is None,
        decreases b@.len() - i,
    {
        if i == b.len() {
            proof {
                assert(b@.skip(i as int).len() == 0);
            }
            return None;
        }
        let byte = b[i];
        proof {
            assert(b@.skip(i as int)[0] == b@[i as int]);
            assert(b@.skip(i as int).drop_first() =~= b@.skip(i as int + 1));
        }
        if byte < 128 {
            if i > pos && byte == 0 {
                return None;
            }
            proof {
                assert(parse_uleb128(b@.skip(i as int), i == pos) == Some(
                    (byte as nat, b@.skip(i as int + 1)),
                ));
                assert((mult as u128) * (byte as u128) <= 0x8000000000000000u128 * 128)
                    by (nonlinear_arith)
                    requires
                        mult <= 0x8000000000000000u64,
                        byte <= 128u8,
                ;
            }
            let wide: u128 = acc as u128 + (mult as u128) * (byte as u128);
            if wide > 0xFFFFFFFFFFFFFFFF {
                return None;
            }
            return Some((wide as u64, i + 1));
        }
        let g = byte - 128;
        if i - pos == 9 {
            proof {
                lemma_parse_uleb128_positive(b@.skip(i as int + 1));
                assert(pow128(9) == 0x8000000000000000) by {
                    reveal_with_fuel(pow128, 10);
                };
                match parse_uleb128(b@.skip(i as int + 1), false) {
                    Some(nr) => {
                        let val = (g as nat + 128 * nr.0) as nat;
                        assert(acc + mult * val >= 0x10000000000000000) by (nonlinear_arith)
                            requires
                                nr.0 >= 1,
                                val == g as nat + 128 * nr.0,
                                g >= 0,
                                acc >= 0,
                                mult == 0x8000000000000000,
                        ;
                    },
                    None => {},
                }
            }
            return None;
        }
        proof {
            lemma_pow128_mono((i - pos + 1) as nat, 9);
            assert(pow128(9) == 0x8000000000000000) by {
                reveal_with_fuel(pow128, 10);
            };
            assert(pow128((i - pos + 1) as nat) == 128 * pow128((i - pos) as nat));
            assert(acc + mult * (g as u64) < mult * 128) by (nonlinear_arith)
                requires
                    acc < mult,
                    g < 128,
            ;
        }
        let ghost acc0 = acc as nat;
        let ghost mult0 = mult as nat;
        acc = acc + mult * (g as u64);
        mult = mult * 128;
        i = i + 1;
        proof {
            match parse_uleb128(b@.skip(i as int), false) {
                Some(nr) => {
                    assert(parse_uleb128(b@.skip(i as int - 1), i - 1 == pos) == Some(
                        ((g as nat + 128 * nr.0) as nat, nr.1),
                    ));
                    assert(acc0 + mult0 * (g as nat + 128 * nr.0) == acc + mult * nr.0)
                        by (nonlinear_arith)
                        requires
                            acc == acc0 + mult0 * (g as nat),
                            mult == 128 * mult0,
                    ;
                },
                None => {},
            }
        }
    }
}

/// Reads a fixed-width little-endian 64-bit integer starting at `pos`.
fn read_u64(b: &Vec<u8>, pos: usize) -> (r: Option<(u64, usize)>)
    requires
        pos <= b@.len(),
    ensures
        match r {
            Some(v) => {
                &&& parse_u64(b@.skip(pos as int)) == Some((v.0, b@.skip(v.1 as int)))
                &&& pos < v.1 <= b@.len()
            },
            None => parse_u64(b@.skip(pos as int)) is None,
        },
{
    let blen = b.len();
    if blen - pos < 8 {
        proof {
            assert(b@.skip(pos as int).len() < 8);
        }
        return None;
    }
    let mut acc: u64 = 0;
    let mut k: usize = 8;
    while k > 0
        invariant
            k <= 8,
            blen == b@.len(),
            pos + 8 <= blen,
            acc as nat == le_val(b@.subrange((pos + k) as int, (pos + 8) as int)),
        decreases k,
    {
        proof {
            lemma_le_val_bound(b@.subrange((pos + k) as int, (pos + 8) as int));
            lemma_pow256_mono((8 - k) as nat, 7);
            assert(pow256(7) == 0x100000000000000) by {
                reveal_with_fuel(pow256, 8);
            };
        }
        k = k - 1;
        let byte = b[pos + k];
        acc = acc * 256 + (byte as u64);
        proof {
            let s = b@.subrange((pos + k) as int, (pos + 8) as int);
            assert(s[0] == b@[(pos + k) as int]);
            assert(s.drop_first() =~= b@.subrange((pos + k + 1) as int, (pos + 8) as int));
            assert(le_val(s) == (s[0] + 256 * le_val(s.drop_first())) as nat);
        }
    }
    proof {
        let s = b@.skip(pos as int);
        assert(s.take(8) =~= b@.subrange(pos as int, (pos + 8) as int));
        assert(s.skip(8) =~= b@.skip((pos + 8) as int));
        lemma_le_val_bound(s.take(8));
        assert(pow256(8) == 0x10000000000000000) by {
            reveal_with_fuel(pow256, 9);
        };
    }
    Some((acc, pos + 8))
}

/// Reads a length-prefixed byte-string field starting at `pos`.
fn read_length_prefixed(b: &Vec<u8>, pos: usize) -> (r: Option<(Vec<u8>, usize)>)
    requires
        pos <= b@.len(),
    ensures
        match r {
            Some(v) => {
                &&& parse_bytes(b@.skip(pos as int)) == Some((v.0@, b@.skip(v.1 as int)))
                &&& pos < v.1 <= b@.len()
            },
            None => parse_bytes(b@.skip(pos as int)) is None,
        },
{
    match read_len(b, pos) {
        None => None,
        Some((n, p)) => {
            proof {
                assert(b@.skip(p as int).len() == b@.len() - p);
            }
            let blen = b.len();
            let remaining = blen - p;
            if n > remaining as u64 {
                return None;
            }
            let m = n as usize;
            let mut field: Vec<u8> = Vec::new();
            let mut k: usize = 0;
            while k < m
                invariant
                    k <= m,
                    m as u64 == n,
                    pos < p,
                    blen == b@.len(),
                    p + m <= blen,
                    field@ == b@.subrange(p as int, (p + k) as int),
                decreases m - k,
            {
                field.push(b[p + k]);
                k = k + 1;
                proof {
                    assert(field@ =~= b@.subrange(p as int, (p + k) as int));
                }
            }
            proof {
                let rest = b@.skip(p as int);
                assert(rest.take(n as int) =~= b@.subrange(p as int, (p + m) as int));
                assert(rest.skip(n as int) =~= b@.skip((p + m) as int));
            }
            Some((field, p + m))
        },
    }
}

/// Reads a whole payload starting at `pos`: each field in declaration order.
#[verifier::rlimit(60)]
fn read_payload(b: &Vec<u8>, pos: usize) -> (r: Option<(DatasetVerification, usize)>)
    requires
        pos <= b@.len(),
    ensures
        match r {
            Some(v) => {
                &&& dec_payload(b@.skip(pos as int)) == Some((v.0@, b@.skip(v.1 as int)))
                &&& pos <= v.1 <= b@.len()
            },
            None => dec_payload(b@.skip(pos as int)) is None,
        },
{
    let (dataset_id, pos1) = match read_length_prefixed(b, pos) {
        Some(v) => v,
        None => {
            return None;
        },
    };
    let (name, pos2) = match read_length_prefixed(b, pos1) {
        Some(v) => v,
        None => {
            return None;
        },
    };
    let (description, pos3) = match read_length_prefixed(b, pos2) {
        Some(v) => v,
        None => {
            return None;
        },
    };
    let (format, pos4) = match read_length_prefixed(b, pos3) {
        Some(v) => v,
        None => {
            return None;
        },
    };
    let (size, pos5) = match read_u64(b, pos4) {
        Some(v) => v,
        None => {
            return None;
        },
    };
    let (original_hash, pos6) = match read_length_prefixed(b, pos5) {
        Some(v) => v,
        None => {
            return None;
        },
    };
    let (walrus_blob_id, pos7) = match read_length_prefixed(b, pos6) {
        Some(v) => v,
        None => {
            return None;
        },
    };
    let (seal_policy_id, pos8) = match read_length_prefixed(b, pos7) {
        Some(v) => v,
        None => {
            return None;
        },
    };
    let (timestamp, pos9) = match read_u64(b, pos8) {
        Some(v) => v,
        None => {
            return None;
        },
    };
    let (uploader, pos10) = match read_length_prefixed(b, pos9) {
        Some(v) => v,
        None => {
            return None;
        },
    };
    let payload = DatasetVerification {
        dataset_id,
        name,
        description,
        format,
        size,
        original_hash,
        walrus_blob_id,
        seal_policy_id,
        timestamp,
        uploader,
    };
    Some((payload, pos10))
}

/// Decodes a payload alone; accepts exactly the canonical encodings that
/// span the input entirely.
pub fn decode_dataset_verification(bytes: &Vec<u8>) -> (r: Option<DatasetVerification>)
    ensures
        match r {
            Some(p) => dec_payload_exact(bytes@) == Some(p@),
            None => dec_payload_exact(bytes@) is None,
        },
{
    proof {
        assert(bytes@.skip(0) =~= bytes@);
    }
    match read_payload(bytes, 0) {
        Some((p, end)) => if end == bytes.len() {
            proof {
                assert(bytes@.skip(end as int).len() == 0);
            }
            Some(p)
        } else {
            proof {
                assert(bytes@.skip(end as int).len() > 0);
            }
            None
        },
        None => None,
    }
}

/// Decodes a whole envelope; accepts exactly the canonical encodings that
/// span the input entirely.
pub fn decode_intent_message(bytes: &Vec<u8>) -> (r: Option<IntentMessage>)
    ensures
        match r {
            Some(m) => dec_message(bytes@) == Some(m@),
            None => dec_message(bytes@) is None,
        },
{
    if bytes.len() == 0 {
        return None;
    }
    let first = bytes[0];
    if first != 0 {
        return None;
    }
    proof {
        assert(bytes@.drop_first() =~= bytes@.skip(1));
        assert(parse_scope(bytes@) == Some((IntentScope::ProcessData, bytes@.skip(1))));
    }
    let (timestamp_ms, pos1) = match read_u64(bytes, 1) {
        Some(v) => v,
        None => {
            return None;
        },
    };
    let (data, pos2) = match read_payload(bytes, pos1) {
        Some(v) => v,
        None => {
            return None;
        },
    };
    if pos2 == bytes.len() {
        proof {
            assert(bytes@.skip(pos2 as int).len() == 0);
        }
        Some(IntentMessage { intent: IntentScope::ProcessData, timestamp_ms, data })
    } else {
        proof {
            assert(bytes@.skip(pos2 as int).len() > 0);
        }
        None
    }
}

} // verus!
