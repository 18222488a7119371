use vstd::prelude::*;

use crate::binary::{
    bin_dec, bin_dec_elems, bin_dec_instrs, bin_dec_pairs, bin_enc, bin_enc_instr, bin_enc_instrs,
    bin_enc_pairs, bin_enc_seq, bin_encodable, dec_str, enc_key, enc_str, instr_encodable,
    instrs_encodable, key_encodable, elems_step, instrs_step, key_of_value, lemma_skip_skip, pairs_encodable, pairs_step,
    prog_encodable, scope_bytes, seq_encodable, str_encodable, FLAG_NULL, FLAG_VALUE, MAX_LEN,
    TYPE_BYTECODE, TYPE_DATE, TYPE_DOUBLE, TYPE_FLOAT, TYPE_INTEGER, TYPE_LIST, TYPE_LONG,
    TYPE_MAP, TYPE_SCOPE, TYPE_SET, TYPE_STRING, TYPE_TRAVERSER, TYPE_UNSPECIFIED_NULL, TYPE_UUID,
};
use crate::bytes::{
    be4, be8, lemma_be4_roundtrip, lemma_be8_roundtrip, lemma_i32_bits_roundtrip,
    lemma_i64_bits_roundtrip, u32_be, u64_be,
};
use crate::structure::{Key, Scope, Value};
use vstd::utf8::{decode_utf8, encode_utf8, valid_utf8};

verus! {

broadcast use vstd::utf8::encode_utf8_valid_utf8, vstd::utf8::encode_utf8_decode_utf8;

/// A length-prefixed string payload decodes back to the characters it was
/// written from.
proof fn lemma_rt_str(cs: Seq<char>, rest: Seq<u8>)
    requires
        str_encodable(cs),
    ensures
        enc_str(cs).len() == 4 + encode_utf8(cs).len(),
        dec_str(enc_str(cs) + rest) == Some((cs, enc_str(cs).len() as int)),
{
    let bs = encode_utf8(cs);
    let x = bs.len() as u32;
    let s = enc_str(cs) + rest;
    assert(s[0] == (x >> 24) as u8 && s[1] == (x >> 16) as u8 && s[2] == (x >> 8) as u8 && s[3]
        == x as u8);
    lemma_be4_roundtrip(x);
    assert(u32_be(s[0], s[1], s[2], s[3]) == x);
    assert(s.subrange(4, 4 + x as int) =~= bs);
    assert(valid_utf8(bs));
    assert(decode_utf8(bs) == cs);
}

/// A fully-qualified string value decodes back to itself.
proof fn lemma_rt_str_value(cs: Seq<char>, rest: Seq<u8>)
    requires
        str_encodable(cs),
    ensures
        bin_enc(Value::Str(cs)).len() == 6 + encode_utf8(cs).len(),
        bin_dec(bin_enc(Value::Str(cs)) + rest) == Some(
            (Value::Str(cs), bin_enc(Value::Str(cs)).len() as int),
        ),
{
    let s = bin_enc(Value::Str(cs)) + rest;
    assert(s[0] == TYPE_STRING && s[1] == FLAG_VALUE);
    assert(s.skip(2) =~= enc_str(cs) + rest);
    lemma_rt_str(cs, rest);
}


proof fn lemma_rt_null(rest: Seq<u8>)
    ensures
        bin_enc(Value::Null).len() == 2,
        bin_dec(bin_enc(Value::Null) + rest) == Some(
            (Value::Null, bin_enc(Value::Null).len() as int),
        ),
{
    let s = bin_enc(Value::Null) + rest;
    assert(s[0] == TYPE_UNSPECIFIED_NULL && s[1] == FLAG_NULL);
}

proof fn lemma_rt_int32(x: i32, rest: Seq<u8>)
    ensures
        bin_enc(Value::Int32(x)).len() == 6,
        bin_dec(bin_enc(Value::Int32(x)) + rest) == Some(
            (Value::Int32(x), bin_enc(Value::Int32(x)).len() as int),
        ),
{
    let s = bin_enc(Value::Int32(x)) + rest;
    let u = x as u32;
    assert(s[0] == TYPE_INTEGER && s[1] == FLAG_VALUE);
    assert(s[2] == (u >> 24) as u8 && s[3] == (u >> 16) as u8 && s[4] == (u >> 8) as u8 && s[5]
        == u as u8);
    lemma_be4_roundtrip(u);
    lemma_i32_bits_roundtrip(x);
}

proof fn lemma_rt_int64(x: i64, rest: Seq<u8>)
    ensures
        bin_enc(Value::Int64(x)).len() == 10,
        bin_dec(bin_enc(Value::Int64(x)) + rest) == Some(
            (Value::Int64(x), bin_enc(Value::Int64(x)).len() as int),
        ),
{
    let s = bin_enc(Value::Int64(x)) + rest;
    let u = x as u64;
    assert(s[0] == TYPE_LONG && s[1] == FLAG_VALUE);
    assert(s[2] == (u >> 56) as u8 && s[3] == (u >> 48) as u8 && s[4] == (u >> 40) as u8 && s[5]
        == (u >> 32) as u8 && s[6] == (u >> 24) as u8 && s[7] == (u >> 16) as u8 && s[8] == (u
        >> 8) as u8 && s[9] == u as u8);
    lemma_be8_roundtrip(u);
    lemma_i64_bits_roundtrip(x);
}

proof fn lemma_rt_date(ms: i64, rest: Seq<u8>)
    ensures
        bin_enc(Value::Date(ms)).len() == 10,
        bin_dec(bin_enc(Value::Date(ms)) + rest) == Some(
            (Value::Date(ms), bin_enc(Value::Date(ms)).len() as int),
        ),
{
    let s = bin_enc(Value::Date(ms)) + rest;
    let u = ms as u64;
    assert(s[0] == TYPE_DATE && s[1] == FLAG_VALUE);
    assert(s[2] == (u >> 56) as u8 && s[3] == (u >> 48) as u8 && s[4] == (u >> 40) as u8 && s[5]
        == (u >> 32) as u8 && s[6] == (u >> 24) as u8 && s[7] == (u >> 16) as u8 && s[8] == (u
        >> 8) as u8 && s[9] == u as u8);
    lemma_be8_roundtrip(u);
    lemma_i64_bits_roundtrip(ms);
}

proof fn lemma_rt_double(bits: u64, rest: Seq<u8>)
    ensures
        bin_enc(Value::Double(bits)).len() == 10,
        bin_dec(bin_enc(Value::Double(bits)) + rest) == Some(
            (Value::Double(bits), bin_enc(Value::Double(bits)).len() as int),
        ),
{
    let s = bin_enc(Value::Double(bits)) + rest;
    assert(s[0] == TYPE_DOUBLE && s[1] == FLAG_VALUE);
    assert(s[2] == (bits >> 56) as u8 && s[3] == (bits >> 48) as u8 && s[4] == (bits >> 40) as u8
        && s[5] == (bits >> 32) as u8 && s[6] == (bits >> 24) as u8 && s[7] == (bits >> 16) as u8
        && s[8] == (bits >> 8) as u8 && s[9] == bits as u8);
    lemma_be8_roundtrip(bits);
}

proof fn lemma_rt_float(bits: u32, rest: Seq<u8>)
    ensures
        bin_enc(Value::Float(bits)).len() == 6,
        bin_dec(bin_enc(Value::Float(bits)) + rest) == Some(
            (Value::Float(bits), bin_enc(Value::Float(bits)).len() as int),
        ),
{
    let s = bin_enc(Value::Float(bits)) + rest;
    assert(s[0] == TYPE_FLOAT && s[1] == FLAG_VALUE);
    assert(s[2] == (bits >> 24) as u8 && s[3] == (bits >> 16) as u8 && s[4] == (bits >> 8) as u8
        && s[5] == bits as u8);
    lemma_be4_roundtrip(bits);
}

proof fn lemma_rt_uuid(u: crate::structure::Uuid, rest: Seq<u8>)
    ensures
        bin_enc(Value::Uuid(u)).len() == 18,
        bin_dec(bin_enc(Value::Uuid(u)) + rest) == Some(
            (Value::Uuid(u), bin_enc(Value::Uuid(u)).len() as int),
        ),
{
    let s = bin_enc(Value::Uuid(u)) + rest;
    assert(s[0] == TYPE_UUID && s[1] == FLAG_VALUE);
    assert(s[2] == (u.hi >> 56) as u8 && s[3] == (u.hi >> 48) as u8 && s[4] == (u.hi >> 40) as u8
        && s[5] == (u.hi >> 32) as u8 && s[6] == (u.hi >> 24) as u8 && s[7] == (u.hi >> 16) as u8
        && s[8] == (u.hi >> 8) as u8 && s[9] == u.hi as u8);
    assert(s[10] == (u.lo >> 56) as u8 && s[11] == (u.lo >> 48) as u8 && s[12] == (u.lo >> 40)
        as u8 && s[13] == (u.lo >> 32) as u8 && s[14] == (u.lo >> 24) as u8 && s[15] == (u.lo
        >> 16) as u8 && s[16] == (u.lo >> 8) as u8 && s[17] == u.lo as u8);
    lemma_be8_roundtrip(u.hi);
    lemma_be8_roundtrip(u.lo);
}

proof fn lemma_rt_scope(sc: Scope, rest: Seq<u8>)
    ensures
        bin_dec(bin_enc(Value::Scope(sc)) + rest) == Some(
            (Value::Scope(sc), bin_enc(Value::Scope(sc)).len() as int),
        ),
{
    let s = bin_enc(Value::Scope(sc)) + rest;
    let body = scope_bytes(sc);
    let n = body.len() as u32;
    assert(s[0] == TYPE_SCOPE && s[1] == FLAG_VALUE && s[2] == TYPE_STRING && s[3] == FLAG_VALUE);
    assert(s[4] == (n >> 24) as u8 && s[5] == (n >> 16) as u8 && s[6] == (n >> 8) as u8 && s[7]
        == n as u8);
    lemma_be4_roundtrip(n);
    assert(s.subrange(8, 8 + n as int) =~= body);
    match sc {
        Scope::Global => {
            assert(body == scope_bytes(Scope::Global));
        },
        Scope::Local => {
            assert(body != scope_bytes(Scope::Global));
            assert(body == scope_bytes(Scope::Local));
        },
    }
}


proof fn lemma_rt_list_arm(items: Seq<Value>, rest: Seq<u8>, set_form: bool)
    requires
        items.len() <= MAX_LEN,
        bin_dec_elems(bin_enc_seq(items) + rest, items.len() as int) == Some(
            (items, bin_enc_seq(items).len() as int),
        ),
    ensures
        !set_form ==> bin_dec(bin_enc(Value::List(items)) + rest) == Some(
            (Value::List(items), bin_enc(Value::List(items)).len() as int),
        ),
        set_form ==> bin_dec(bin_enc(Value::GSet(items)) + rest) == Some(
            (Value::GSet(items), bin_enc(Value::GSet(items)).len() as int),
        ),
{
    let v = if set_form { Value::GSet(items) } else { Value::List(items) };
    let s = bin_enc(v) + rest;
    let n = items.len() as u32;
    assert(s[1] == FLAG_VALUE);
    assert(s[2] == (n >> 24) as u8 && s[3] == (n >> 16) as u8 && s[4] == (n >> 8) as u8 && s[5]
        == n as u8);
    lemma_be4_roundtrip(n);
    assert(s.skip(6) =~= bin_enc_seq(items) + rest);
    if set_form {
        assert(s[0] == TYPE_SET);
    } else {
        assert(s[0] == TYPE_LIST);
    }
}

proof fn lemma_rt_map_arm(pairs: Seq<(Key, Value)>, rest: Seq<u8>)
    requires
        pairs.len() <= MAX_LEN,
        bin_dec_pairs(bin_enc_pairs(pairs) + rest, pairs.len() as int) == Some(
            (pairs, bin_enc_pairs(pairs).len() as int),
        ),
    ensures
        bin_dec(bin_enc(Value::GMap(pairs)) + rest) == Some(
            (Value::GMap(pairs), bin_enc(Value::GMap(pairs)).len() as int),
        ),
{
    let s = bin_enc(Value::GMap(pairs)) + rest;
    let n = pairs.len() as u32;
    assert(s[0] == TYPE_MAP && s[1] == FLAG_VALUE);
    assert(s[2] == (n >> 24) as u8 && s[3] == (n >> 16) as u8 && s[4] == (n >> 8) as u8 && s[5]
        == n as u8);
    lemma_be4_roundtrip(n);
    assert(s.skip(6) =~= bin_enc_pairs(pairs) + rest);
}

#[verifier::rlimit(100)]
proof fn lemma_rt_bytecode_arm(p: crate::structure::Prog, rest: Seq<u8>)
    requires
        prog_encodable(p),
        bin_dec_instrs(
            bin_enc_instrs(p.steps) + (be4(p.sources.len() as u32) + bin_enc_instrs(p.sources)
                + rest),
            p.steps.len() as int,
        ) == Some((p.steps, bin_enc_instrs(p.steps).len() as int)),
        bin_dec_instrs(bin_enc_instrs(p.sources) + rest, p.sources.len() as int) == Some(
            (p.sources, bin_enc_instrs(p.sources).len() as int),
        ),
    ensures
        bin_dec(bin_enc(Value::Bytecode(p)) + rest) == Some(
            (Value::Bytecode(p), bin_enc(Value::Bytecode(p)).len() as int),
        ),
{
    let s = bin_enc(Value::Bytecode(p)) + rest;
    let n = p.steps.len() as u32;
    let m = p.sources.len() as u32;
    let e1 = bin_enc_instrs(p.steps);
    let e2 = bin_enc_instrs(p.sources);
    assert(s[0] == TYPE_BYTECODE && s[1] == FLAG_VALUE);
    assert(s[2] == (n >> 24) as u8 && s[3] == (n >> 16) as u8 && s[4] == (n >> 8) as u8 && s[5]
        == n as u8);
    lemma_be4_roundtrip(n);
    assert(s.skip(6) =~= e1 + (be4(m) + e2 + rest));
    let k = e1.len() as int;
    assert(bin_dec_instrs(s.skip(6), n as int) == Some((p.steps, k)));
    assert(s.len() >= 6 + k + 4);
    assert(s[6 + k] == (m >> 24) as u8 && s[7 + k] == (m >> 16) as u8 && s[8 + k] == (m >> 8)
        as u8 && s[9 + k] == m as u8);
    lemma_be4_roundtrip(m);
    assert(s.skip(10 + k) =~= e2 + rest);
    assert(p == (crate::structure::Prog { sources: p.sources, steps: p.steps }));
}

/// The round-trip law of the binary codec, one value at a time: decoding a
/// fully-qualified encoding followed by arbitrary further bytes yields the
/// encoded value back and consumes exactly its encoding.
#[verifier::rlimit(100)]
pub proof fn lemma_bin_round_trip(v: Value, rest: Seq<u8>)
    requires
        bin_encodable(v),
    ensures
        bin_enc(v).len() >= 2,
        bin_dec(bin_enc(v) + rest) == Some((v, bin_enc(v).len() as int)),
    decreases v, 1int,
{
    let s = bin_enc(v) + rest;
    match v {
        Value::Null => {
            lemma_rt_null(rest);
        },
        Value::Int32(x) => {
            lemma_rt_int32(x, rest);
        },
        Value::Int64(x) => {
            lemma_rt_int64(x, rest);
        },
        Value::Date(ms) => {
            lemma_rt_date(ms, rest);
        },
        Value::Double(bits) => {
            lemma_rt_double(bits, rest);
        },
        Value::Float(bits) => {
            lemma_rt_float(bits, rest);
        },
        Value::Uuid(u) => {
            lemma_rt_uuid(u, rest);
        },
        Value::Str(cs) => {
            lemma_rt_str_value(cs, rest);
        },
        Value::List(items) => {
            lemma_rt_elems(items, rest);
            lemma_rt_list_arm(items, rest, false);
        },
        Value::GSet(items) => {
            lemma_rt_elems(items, rest);
            lemma_rt_list_arm(items, rest, true);
        },
        Value::GMap(pairs) => {
            lemma_rt_pairs(pairs, rest);
            lemma_rt_map_arm(pairs, rest);
        },
        Value::Bytecode(p) => {
            lemma_rt_instrs(p.steps, be4(p.sources.len() as u32) + bin_enc_instrs(p.sources) + rest);
            lemma_rt_instrs(p.sources, rest);
            lemma_rt_bytecode_arm(p, rest);
        },
        Value::Scope(sc) => {
            lemma_rt_scope(sc, rest);
        },
        _ => {},
    }
}

/// Decoding the concatenated encodings of `items` with their count yields
/// `items` back.
proof fn lemma_rt_elems(items: Seq<Value>, rest: Seq<u8>)
    requires
        seq_encodable(items),
    ensures
        bin_dec_elems(bin_enc_seq(items) + rest, items.len() as int) == Some(
            (items, bin_enc_seq(items).len() as int),
        ),
    decreases items, 0int,
{
    if items.len() == 0 {
        assert(items =~= Seq::<Value>::empty());
    } else {
        let v0 = items[0];
        let e0 = bin_enc(v0);
        let tail = bin_enc_seq(items.skip(1)) + rest;
        assert(bin_enc_seq(items) + rest =~= e0 + tail);
        lemma_bin_round_trip(v0, tail);
        let s = e0 + tail;
        assert(bin_dec(s) == Some((v0, e0.len() as int)));
        assert(s.skip(e0.len() as int) =~= tail);
        assert(seq_encodable(items.skip(1))) by {
            assert forall|i: int| 0 <= i < items.skip(1).len() implies bin_encodable(
                #[trigger] items.skip(1)[i],
            ) by {
                assert(items.skip(1)[i] == items[i + 1]);
            }
        }
        lemma_rt_elems(items.skip(1), rest);
        assert(seq![v0] + items.skip(1) =~= items);
    }
}

/// Decoding one leading map entry peels it off the front.
#[verifier::rlimit(100)]
proof fn lemma_rt_pair_head(k0: Key, v0: Value, tail2: Seq<u8>, n: int)
    requires
        n > 0,
        k0 is Str,
        bin_dec(enc_key(k0) + (bin_enc(v0) + tail2)) == Some(
            (Value::Str(k0->Str_0), enc_key(k0).len() as int),
        ),
        bin_dec(bin_enc(v0) + tail2) == Some((v0, bin_enc(v0).len() as int)),
        enc_key(k0).len() >= 2,
        bin_enc(v0).len() >= 2,
    ensures
        bin_dec_pairs(enc_key(k0) + bin_enc(v0) + tail2, n) == pairs_step(
            seq![(k0, v0)],
            enc_key(k0).len() + bin_enc(v0).len() as int,
            bin_dec_pairs(tail2, n - 1),
        ),
{
    let s = enc_key(k0) + bin_enc(v0) + tail2;
    assert(s =~= enc_key(k0) + (bin_enc(v0) + tail2));
    let k1 = enc_key(k0).len() as int;
    let k2 = bin_enc(v0).len() as int;
    assert(key_of_value(Value::Str(k0->Str_0)) == Some(k0));
    assert(s.skip(k1) =~= bin_enc(v0) + tail2);
    assert(s.skip(k1 + k2) =~= tail2);
    match bin_dec_pairs(tail2, n - 1) {
        Some((ps, m)) => {},
        None => {},
    }
}

/// Decoding the concatenated encodings of map entries with their count yields
/// the entries back.
proof fn lemma_rt_pairs(pairs: Seq<(Key, Value)>, rest: Seq<u8>)
    requires
        pairs_encodable(pairs),
    ensures
        bin_dec_pairs(bin_enc_pairs(pairs) + rest, pairs.len() as int) == Some(
            (pairs, bin_enc_pairs(pairs).len() as int),
        ),
    decreases pairs, 0int,
{
    if pairs.len() == 0 {
        assert(pairs =~= Seq::<(Key, Value)>::empty());
    } else {
        let (k0, v0) = pairs[0];
        assert(key_encodable(pairs[0].0) && bin_encodable(pairs[0].1));
        let cs = k0->Str_0;
        assert(enc_key(k0) == bin_enc(Value::Str(cs)));
        let tail2 = bin_enc_pairs(pairs.skip(1)) + rest;
        let s = bin_enc_pairs(pairs) + rest;
        assert(bin_enc_pairs(pairs) == enc_key(k0) + bin_enc(v0) + bin_enc_pairs(pairs.skip(1)));
        assert(s =~= enc_key(k0) + bin_enc(v0) + tail2);
        lemma_rt_str_value(cs, bin_enc(v0) + tail2);
        lemma_bin_round_trip(v0, tail2);
        lemma_rt_pair_head(k0, v0, tail2, pairs.len() as int);
        assert(pairs_encodable(pairs.skip(1))) by {
            assert forall|i: int| 0 <= i < pairs.skip(1).len() implies key_encodable(
                (#[trigger] pairs.skip(1)[i]).0,
            ) && bin_encodable(pairs.skip(1)[i].1) by {
                assert(pairs.skip(1)[i] == pairs[i + 1]);
            }
        }
        lemma_rt_pairs(pairs.skip(1), rest);
        assert(seq![(k0, v0)] + pairs.skip(1) =~= pairs);
    }
}

/// Decoding one leading instruction peels it off the front.
#[verifier::rlimit(100)]
proof fn lemma_rt_instr_head(i0: crate::structure::Instr, tail3: Seq<u8>, n: int)
    requires
        n > 0,
        str_encodable(i0.op),
        i0.args.len() <= MAX_LEN,
        dec_str(enc_str(i0.op) + (be4(i0.args.len() as u32) + bin_enc_seq(i0.args) + tail3))
            == Some((i0.op, enc_str(i0.op).len() as int)),
        bin_dec_elems(bin_enc_seq(i0.args) + tail3, i0.args.len() as int) == Some(
            (i0.args, bin_enc_seq(i0.args).len() as int),
        ),
        enc_str(i0.op).len() >= 4,
    ensures
        bin_dec_instrs(bin_enc_instr(i0) + tail3, n) == instrs_step(
            seq![i0],
            bin_enc_instr(i0).len() as int,
            bin_dec_instrs(tail3, n - 1),
        ),
{
    let m = i0.args.len() as u32;
    let eop = enc_str(i0.op);
    let eargs = bin_enc_seq(i0.args);
    let s = bin_enc_instr(i0) + tail3;
    assert(s =~= eop + (be4(m) + eargs + tail3));
    let k1 = eop.len() as int;
    assert(s.len() - 4 >= k1);
    assert(s[k1] == (m >> 24) as u8 && s[k1 + 1] == (m >> 16) as u8 && s[k1 + 2] == (m >> 8)
        as u8 && s[k1 + 3] == m as u8);
    lemma_be4_roundtrip(m);
    assert(s.skip(k1 + 4) =~= eargs + tail3);
    assert(s.skip(k1 + 4 + eargs.len() as int) =~= tail3);
    assert(i0 == (crate::structure::Instr { op: i0.op, args: i0.args }));
    match bin_dec_instrs(tail3, n - 1) {
        Some((is, m2)) => {},
        None => {},
    }
}

/// Decoding the concatenated encodings of instructions with their count
/// yields the instructions back.
proof fn lemma_rt_instrs(instrs: Seq<crate::structure::Instr>, rest: Seq<u8>)
    requires
        instrs_encodable(instrs),
    ensures
        bin_dec_instrs(bin_enc_instrs(instrs) + rest, instrs.len() as int) == Some(
            (instrs, bin_enc_instrs(instrs).len() as int),
        ),
    decreases instrs, 0int,
{
    if instrs.len() == 0 {
        assert(instrs =~= Seq::<crate::structure::Instr>::empty());
    } else {
        let i0 = instrs[0];
        assert(instr_encodable(instrs[0]));
        let tail3 = bin_enc_instrs(instrs.skip(1)) + rest;
        let s = bin_enc_instrs(instrs) + rest;
        assert(bin_enc_instrs(instrs) == bin_enc_instr(i0) + bin_enc_instrs(instrs.skip(1)));
        assert(bin_enc_instr(i0) == enc_str(i0.op) + be4(i0.args.len() as u32) + bin_enc_seq(
            i0.args,
        ));
        assert(s =~= bin_enc_instr(i0) + tail3);
        lemma_rt_str(i0.op, be4(i0.args.len() as u32) + bin_enc_seq(i0.args) + tail3);
        lemma_rt_elems(i0.args, tail3);
        lemma_rt_instr_head(i0, tail3, instrs.len() as int);
        assert(instrs_encodable(instrs.skip(1))) by {
            assert forall|i: int| 0 <= i < instrs.skip(1).len() implies instr_encodable(
                #[trigger] instrs.skip(1)[i],
            ) by {
                assert(instrs.skip(1)[i] == instrs[i + 1]);
            }
        }
        lemma_rt_instrs(instrs.skip(1), rest);
        assert(seq![i0] + instrs.skip(1) =~= instrs);
    }
}


// ---------------------------------------------------------------------------
// Prefix determinism: a successful decode consumes at most the input, reads
// nothing past what it consumes, and is therefore unchanged by appending
// further bytes.
// ---------------------------------------------------------------------------

proof fn lemma_dec_str_ext(s: Seq<u8>, ext: Seq<u8>)
    requires
        dec_str(s) is Some,
    ensures
        0 < dec_str(s).unwrap().1 <= s.len(),
        dec_str(s + ext) == dec_str(s),
{
    let t = s + ext;
    let n = u32_be(s[0], s[1], s[2], s[3]);
    assert(t[0] == s[0] && t[1] == s[1] && t[2] == s[2] && t[3] == s[3]);
    assert(t.subrange(4, 4 + n as int) =~= s.subrange(4, 4 + n as int));
}

#[verifier::rlimit(100)]
proof fn lemma_dec_ext(s: Seq<u8>, ext: Seq<u8>)
    requires
        bin_dec(s) is Some,
    ensures
        0 < bin_dec(s).unwrap().1 <= s.len(),
        bin_dec(s + ext) == bin_dec(s),
    decreases s.len(), 0int,
{
    let t = s + ext;
    let code = s[0];
    let flag = s[1];
    assert(t[0] == s[0] && t[1] == s[1]);
    if code == TYPE_UNSPECIFIED_NULL || flag == FLAG_NULL {
    } else if code == TYPE_INTEGER || code == TYPE_FLOAT {
        assert(t[2] == s[2] && t[3] == s[3] && t[4] == s[4] && t[5] == s[5]);
    } else if code == TYPE_LONG || code == TYPE_DATE || code == TYPE_DOUBLE {
        assert(t[2] == s[2] && t[3] == s[3] && t[4] == s[4] && t[5] == s[5] && t[6] == s[6] && t[7]
            == s[7] && t[8] == s[8] && t[9] == s[9]);
    } else if code == TYPE_UUID {
        assert(forall|i: int| 0 <= i < s.len() ==> t[i] == s[i]);
    } else if code == TYPE_STRING {
        assert(t.skip(2) =~= s.skip(2) + ext);
        lemma_dec_str_ext(s.skip(2), ext);
    } else if code == TYPE_LIST || code == TYPE_SET || code == TYPE_MAP {
        assert(t[2] == s[2] && t[3] == s[3] && t[4] == s[4] && t[5] == s[5]);
        let n = u32_be(s[2], s[3], s[4], s[5]);
        assert(t.skip(6) =~= s.skip(6) + ext);
        if code == TYPE_MAP {
            lemma_dec_pairs_ext(s.skip(6), ext, n as int);
        } else {
            lemma_dec_elems_ext(s.skip(6), ext, n as int);
        }
    } else if code == TYPE_BYTECODE {
        assert(t[2] == s[2] && t[3] == s[3] && t[4] == s[4] && t[5] == s[5]);
        let n = u32_be(s[2], s[3], s[4], s[5]);
        assert(t.skip(6) =~= s.skip(6) + ext);
        lemma_dec_instrs_ext(s.skip(6), ext, n as int);
        let (steps, k) = bin_dec_instrs(s.skip(6), n as int).unwrap();
        assert(t[6 + k] == s[6 + k] && t[7 + k] == s[7 + k] && t[8 + k] == s[8 + k] && t[9 + k]
            == s[9 + k]);
        let m = u32_be(s[6 + k], s[7 + k], s[8 + k], s[9 + k]);
        assert(t.skip(10 + k) =~= s.skip(10 + k) + ext);
        lemma_dec_instrs_ext(s.skip(10 + k), ext, m as int);
    } else if code == TYPE_SCOPE {
        assert(t[2] == s[2] && t[3] == s[3] && t[4] == s[4] && t[5] == s[5] && t[6] == s[6] && t[7]
            == s[7]);
        let n = u32_be(s[4], s[5], s[6], s[7]);
        assert(t.subrange(8, 8 + n as int) =~= s.subrange(8, 8 + n as int));
    } else {
        // TYPE_TRAVERSER
        assert(t[2] == s[2] && t[3] == s[3] && t[4] == s[4] && t[5] == s[5] && t[6] == s[6] && t[7]
            == s[7] && t[8] == s[8] && t[9] == s[9]);
        assert(t.skip(10) =~= s.skip(10) + ext);
        lemma_dec_ext(s.skip(10), ext);
    }
}

proof fn lemma_dec_elems_ext(s: Seq<u8>, ext: Seq<u8>, n: int)
    requires
        bin_dec_elems(s, n) is Some,
    ensures
        0 <= bin_dec_elems(s, n).unwrap().1 <= s.len(),
        bin_dec_elems(s + ext, n) == bin_dec_elems(s, n),
    decreases s.len(), n,
{
    if n <= 0 {
    } else {
        lemma_dec_ext(s, ext);
        let (v, k) = bin_dec(s).unwrap();
        assert((s + ext).skip(k) =~= s.skip(k) + ext);
        lemma_dec_elems_ext(s.skip(k), ext, n - 1);
    }
}

proof fn lemma_dec_pairs_ext(s: Seq<u8>, ext: Seq<u8>, n: int)
    requires
        bin_dec_pairs(s, n) is Some,
    ensures
        0 <= bin_dec_pairs(s, n).unwrap().1 <= s.len(),
        bin_dec_pairs(s + ext, n) == bin_dec_pairs(s, n),
    decreases s.len(), n,
{
    if n <= 0 {
    } else {
        lemma_dec_ext(s, ext);
        let (kv, k1) = bin_dec(s).unwrap();
        assert((s + ext).skip(k1) =~= s.skip(k1) + ext);
        lemma_dec_ext(s.skip(k1), ext);
        let (v, k2) = bin_dec(s.skip(k1)).unwrap();
        assert((s + ext).skip(k1 + k2) =~= s.skip(k1 + k2) + ext);
        assert(s.skip(k1).skip(k2) =~= s.skip(k1 + k2));
        lemma_dec_pairs_ext(s.skip(k1 + k2), ext, n - 1);
    }
}

proof fn lemma_dec_instrs_ext(s: Seq<u8>, ext: Seq<u8>, n: int)
    requires
        bin_dec_instrs(s, n) is Some,
    ensures
        0 <= bin_dec_instrs(s, n).unwrap().1 <= s.len(),
        bin_dec_instrs(s + ext, n) == bin_dec_instrs(s, n),
    decreases s.len(), n,
{
    if n <= 0 {
    } else {
        let t = s + ext;
        lemma_dec_str_ext(s, ext);
        let (op, k1) = dec_str(s).unwrap();
        assert(t[k1] == s[k1] && t[k1 + 1] == s[k1 + 1] && t[k1 + 2] == s[k1 + 2] && t[k1 + 3]
            == s[k1 + 3]);
        let m = u32_be(s[k1], s[k1 + 1], s[k1 + 2], s[k1 + 3]);
        assert(t.skip(k1 + 4) =~= s.skip(k1 + 4) + ext);
        lemma_dec_elems_ext(s.skip(k1 + 4), ext, m as int);
        let (args, k2) = bin_dec_elems(s.skip(k1 + 4), m as int).unwrap();
        assert(t.skip(k1 + 4 + k2) =~= s.skip(k1 + 4 + k2) + ext);
        lemma_dec_instrs_ext(s.skip(k1 + 4 + k2), ext, n - 1);
    }
}

/// Truncated input is rejected: no strict prefix of a value's binary
/// encoding decodes successfully, so a decoder that sees only part of an
/// encoding reports an error rather than returning a wrong value.
pub proof fn lemma_bin_truncation(v: Value, j: int)
    requires
        bin_encodable(v),
        0 <= j < bin_enc(v).len(),
    ensures
        bin_dec(bin_enc(v).take(j)) is None,
{
    let e = bin_enc(v);
    let p = e.take(j);
    if bin_dec(p) is Some {
        let (v2, k2) = bin_dec(p).unwrap();
        lemma_dec_ext(p, e.skip(j));
        assert(p + e.skip(j) =~= e);
        lemma_bin_round_trip(v, Seq::<u8>::empty());
        assert(e + Seq::<u8>::empty() =~= e);
        assert(bin_dec(e) == Some((v, e.len() as int)));
        assert(k2 <= j);
        assert(k2 == e.len() as int);
        assert(false);
    }
}

} // verus!
