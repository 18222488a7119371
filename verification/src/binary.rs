use vstd::prelude::*;

use crate::bytes::{be4, be8, u32_be, u64_be};
use crate::structure::{Instr, Key, Prog, Scope, Uuid, Value};
use vstd::utf8::{decode_utf8, encode_utf8, valid_utf8};

verus! {

// ---------------------------------------------------------------------------
// The self-describing binary format: every value is written fully qualified,
// as one type-code byte, one value-flag byte (0x00 present, 0x01 null), and
// the big-endian payload.
// ---------------------------------------------------------------------------

pub const TYPE_INTEGER: u8 = 0x01;

pub const TYPE_LONG: u8 = 0x02;

pub const TYPE_STRING: u8 = 0x03;

pub const TYPE_DATE: u8 = 0x04;

pub const TYPE_DOUBLE: u8 = 0x07;

pub const TYPE_FLOAT: u8 = 0x08;

pub const TYPE_LIST: u8 = 0x09;

pub const TYPE_MAP: u8 = 0x0A;

pub const TYPE_SET: u8 = 0x0B;

pub const TYPE_UUID: u8 = 0x0C;

pub const TYPE_BYTECODE: u8 = 0x15;

pub const TYPE_SCOPE: u8 = 0x1F;

pub const TYPE_TRAVERSER: u8 = 0x21;

pub const TYPE_UNSPECIFIED_NULL: u8 = 0xFE;

pub const FLAG_VALUE: u8 = 0x00;

pub const FLAG_NULL: u8 = 0x01;

/// The largest length the 4-byte signed length prefix can carry.
pub const MAX_LEN: u32 = 0x7FFF_FFFF;

/// The wire name of a scope: the UTF-8 bytes of "global" or "local".
pub open spec fn scope_bytes(s: Scope) -> Seq<u8> {
    match s {
        Scope::Global => seq![103u8, 108u8, 111u8, 98u8, 97u8, 108u8],
        Scope::Local => seq![108u8, 111u8, 99u8, 97u8, 108u8],
    }
}

// ---------------------------------------------------------------------------
// What the binary codec can carry.
// ---------------------------------------------------------------------------

/// A character sequence whose UTF-8 form fits the signed 4-byte length prefix.
pub open spec fn str_encodable(s: Seq<char>) -> bool {
    encode_utf8(s).len() <= MAX_LEN
}

/// Whether the binary codec can write this value: the variant is one the
/// format carries, every nested length fits the signed 4-byte prefix, and
/// map keys are strings.
pub open spec fn bin_encodable(v: Value) -> bool
    decreases v,
{
    match v {
        Value::Null => true,
        Value::Int32(_) => true,
        Value::Int64(_) => true,
        Value::Float(_) => true,
        Value::Double(_) => true,
        Value::Str(s) => str_encodable(s),
        Value::Uuid(_) => true,
        Value::Date(_) => true,
        Value::List(items) => items.len() <= MAX_LEN && seq_encodable(items),
        Value::GSet(items) => items.len() <= MAX_LEN && seq_encodable(items),
        Value::GMap(pairs) => pairs.len() <= MAX_LEN && pairs_encodable(pairs),
        Value::Bytecode(p) => prog_encodable(p),
        Value::Scope(_) => true,
        _ => false,
    }
}

/// All items of a collection are encodable.
pub open spec fn seq_encodable(items: Seq<Value>) -> bool
    decreases items,
{
    forall|i: int| #![trigger items[i]] 0 <= i < items.len() ==> bin_encodable(items[i])
}

/// All entries of a map are encodable and their keys are strings.
pub open spec fn pairs_encodable(pairs: Seq<(Key, Value)>) -> bool
    decreases pairs,
{
    forall|i: int|
        #![trigger pairs[i]]
        0 <= i < pairs.len() ==> key_encodable(pairs[i].0) && bin_encodable(pairs[i].1)
}

/// All instructions of a sequence are encodable.
pub open spec fn instrs_encodable(instrs: Seq<Instr>) -> bool
    decreases instrs,
{
    forall|i: int| #![trigger instrs[i]] 0 <= i < instrs.len() ==> instr_encodable(instrs[i])
}

/// The binary codec writes only string keys.
pub open spec fn key_encodable(k: Key) -> bool {
    match k {
        Key::Str(s) => str_encodable(s),
        _ => false,
    }
}

pub open spec fn instr_encodable(i: Instr) -> bool
    decreases i,
{
    &&& str_encodable(i.op)
    &&& i.args.len() <= MAX_LEN
    &&& seq_encodable(i.args)
}

pub open spec fn prog_encodable(p: Prog) -> bool
    decreases p,
{
    &&& p.sources.len() <= MAX_LEN
    &&& p.steps.len() <= MAX_LEN
    &&& instrs_encodable(p.sources)
    &&& instrs_encodable(p.steps)
}

// ---------------------------------------------------------------------------
// The encoding.
// ---------------------------------------------------------------------------

/// A length-prefixed UTF-8 string payload.
pub open spec fn enc_str(s: Seq<char>) -> Seq<u8> {
    be4(encode_utf8(s).len() as u32) + encode_utf8(s)
}

/// The fully-qualified byte form of a value.
pub open spec fn bin_enc(v: Value) -> Seq<u8>
    decreases v,
{
    match v {
        Value::Null => seq![TYPE_UNSPECIFIED_NULL, FLAG_NULL],
        Value::Int32(x) => seq![TYPE_INTEGER, FLAG_VALUE] + be4(x as u32),
        Value::Int64(x) => seq![TYPE_LONG, FLAG_VALUE] + be8(x as u64),
        Value::Float(bits) => seq![TYPE_FLOAT, FLAG_VALUE] + be4(bits),
        Value::Double(bits) => seq![TYPE_DOUBLE, FLAG_VALUE] + be8(bits),
        Value::Str(s) => seq![TYPE_STRING, FLAG_VALUE] + enc_str(s),
        Value::Uuid(u) => seq![TYPE_UUID, FLAG_VALUE] + be8(u.hi) + be8(u.lo),
        Value::Date(ms) => seq![TYPE_DATE, FLAG_VALUE] + be8(ms as u64),
        Value::List(items) => seq![TYPE_LIST, FLAG_VALUE] + be4(items.len() as u32) + bin_enc_seq(
            items,
        ),
        Value::GSet(items) => seq![TYPE_SET, FLAG_VALUE] + be4(items.len() as u32) + bin_enc_seq(
            items,
        ),
        Value::GMap(pairs) => seq![TYPE_MAP, FLAG_VALUE] + be4(pairs.len() as u32)
            + bin_enc_pairs(pairs),
        Value::Bytecode(p) => seq![TYPE_BYTECODE, FLAG_VALUE] + be4(p.steps.len() as u32)
            + bin_enc_instrs(p.steps) + be4(p.sources.len() as u32) + bin_enc_instrs(p.sources),
        Value::Scope(s) => seq![TYPE_SCOPE, FLAG_VALUE, TYPE_STRING, FLAG_VALUE] + be4(
            scope_bytes(s).len() as u32,
        ) + scope_bytes(s),
        _ => Seq::empty(),
    }
}

/// The concatenated fully-qualified forms of the items of a collection.
pub open spec fn bin_enc_seq(items: Seq<Value>) -> Seq<u8>
    decreases items,
{
    if items.len() == 0 {
        Seq::empty()
    } else {
        bin_enc(items[0]) + bin_enc_seq(items.skip(1))
    }
}

/// A string key in fully-qualified form.
pub open spec fn enc_key(k: Key) -> Seq<u8> {
    match k {
        Key::Str(s) => seq![TYPE_STRING, FLAG_VALUE] + enc_str(s),
        _ => Seq::empty(),
    }
}

/// The concatenated key/value entries of a map.
pub open spec fn bin_enc_pairs(pairs: Seq<(Key, Value)>) -> Seq<u8>
    decreases pairs,
{
    if pairs.len() == 0 {
        Seq::empty()
    } else {
        enc_key(pairs[0].0) + bin_enc(pairs[0].1) + bin_enc_pairs(pairs.skip(1))
    }
}

/// One instruction: its operator name, then its argument count and arguments.
pub open spec fn bin_enc_instr(i: Instr) -> Seq<u8>
    decreases i,
{
    enc_str(i.op) + be4(i.args.len() as u32) + bin_enc_seq(i.args)
}

pub open spec fn bin_enc_instrs(instrs: Seq<Instr>) -> Seq<u8>
    decreases instrs,
{
    if instrs.len() == 0 {
        Seq::empty()
    } else {
        bin_enc_instr(instrs[0]) + bin_enc_instrs(instrs.skip(1))
    }
}

// ---------------------------------------------------------------------------
// The decoding: a deterministic left-to-right read of the same grammar.
// `bin_dec(s)` yields the decoded value and the number of bytes consumed,
// or nothing when the input is malformed or truncated.
// ---------------------------------------------------------------------------

/// A length-prefixed UTF-8 string payload.
pub open spec fn dec_str(s: Seq<u8>) -> Option<(Seq<char>, int)> {
    if s.len() < 4 {
        None
    } else {
        let n = u32_be(s[0], s[1], s[2], s[3]);
        if n > MAX_LEN {
            None
        } else if s.len() < 4 + n {
            None
        } else {
            let bs = s.subrange(4, 4 + n);
            if valid_utf8(bs) {
                Some((decode_utf8(bs), 4 + n))
            } else {
                None
            }
        }
    }
}

/// Which type codes the decoder recognizes.
pub open spec fn known_code(code: u8) -> bool {
    ||| code == TYPE_INTEGER
    ||| code == TYPE_LONG
    ||| code == TYPE_STRING
    ||| code == TYPE_DATE
    ||| code == TYPE_DOUBLE
    ||| code == TYPE_FLOAT
    ||| code == TYPE_LIST
    ||| code == TYPE_MAP
    ||| code == TYPE_SET
    ||| code == TYPE_UUID
    ||| code == TYPE_BYTECODE
    ||| code == TYPE_SCOPE
    ||| code == TYPE_TRAVERSER
}

/// Which decoded values may serve as map keys, and as which key.
pub open spec fn key_of_value(v: Value) -> Option<Key> {
    match v {
        Value::Str(s) => Some(Key::Str(s)),
        _ => None,
    }
}

pub open spec fn bin_dec(s: Seq<u8>) -> Option<(Value, int)>
    decreases s.len(), 0int,
{
    if s.len() < 2 {
        None
    } else {
        let code = s[0];
        let flag = s[1];
        if code == TYPE_UNSPECIFIED_NULL {
            if flag == FLAG_NULL {
                Some((Value::Null, 2))
            } else {
                None
            }
        } else if !known_code(code) {
            None
        } else if flag == FLAG_NULL {
            Some((Value::Null, 2))
        } else if flag != FLAG_VALUE {
            None
        } else if code == TYPE_INTEGER {
            if s.len() < 6 {
                None
            } else {
                Some((Value::Int32(u32_be(s[2], s[3], s[4], s[5]) as i32), 6))
            }
        } else if code == TYPE_LONG {
            if s.len() < 10 {
                None
            } else {
                Some(
                    (
                        Value::Int64(
                            u64_be(s[2], s[3], s[4], s[5], s[6], s[7], s[8], s[9]) as i64,
                        ),
                        10,
                    ),
                )
            }
        } else if code == TYPE_DATE {
            if s.len() < 10 {
                None
            } else {
                Some(
                    (
                        Value::Date(u64_be(s[2], s[3], s[4], s[5], s[6], s[7], s[8], s[9]) as i64),
                        10,
                    ),
                )
            }
        } else if code == TYPE_DOUBLE {
            if s.len() < 10 {
                None
            } else {
                Some(
                    (
                        Value::Double(u64_be(s[2], s[3], s[4], s[5], s[6], s[7], s[8], s[9])),
                        10,
                    ),
                )
            }
        } else if code == TYPE_FLOAT {
            if s.len() < 6 {
                None
            } else {
                Some((Value::Float(u32_be(s[2], s[3], s[4], s[5])), 6))
            }
        } else if code == TYPE_UUID {
            if s.len() < 18 {
                None
            } else {
                Some(
                    (
                        Value::Uuid(
                            Uuid {
                                hi: u64_be(s[2], s[3], s[4], s[5], s[6], s[7], s[8], s[9]),
                                lo: u64_be(
                                    s[10],
                                    s[11],
                                    s[12],
                                    s[13],
                                    s[14],
                                    s[15],
                                    s[16],
                                    s[17],
                                ),
                            },
                        ),
                        18,
                    ),
                )
            }
        } else if code == TYPE_STRING {
            match dec_str(s.skip(2)) {
                Some((cs, k)) => Some((Value::Str(cs), 2 + k)),
                None => None,
            }
        } else if code == TYPE_LIST || code == TYPE_SET {
            if s.len() < 6 {
                None
            } else {
                let n = u32_be(s[2], s[3], s[4], s[5]);
                if n > MAX_LEN {
                    None
                } else {
                    match bin_dec_elems(s.skip(6), n as int) {
                        Some((vs, k)) => if code == TYPE_LIST {
                            Some((Value::List(vs), 6 + k))
                        } else {
                            Some((Value::GSet(vs), 6 + k))
                        },
                        None => None,
                    }
                }
            }
        } else if code == TYPE_MAP {
            if s.len() < 6 {
                None
            } else {
                let n = u32_be(s[2], s[3], s[4], s[5]);
                if n > MAX_LEN {
                    None
                } else {
                    match bin_dec_pairs(s.skip(6), n as int) {
                        Some((ps, k)) => Some((Value::GMap(ps), 6 + k)),
                        None => None,
                    }
                }
            }
        } else if code == TYPE_BYTECODE {
            if s.len() < 6 {
                None
            } else {
                let n_steps = u32_be(s[2], s[3], s[4], s[5]);
                if n_steps > MAX_LEN {
                    None
                } else {
                    match bin_dec_instrs(s.skip(6), n_steps as int) {
                        Some((steps, k)) => if !(0 <= k) {
                            None
                        } else if s.len() < 6 + k + 4 {
                            None
                        } else {
                            let n_sources = u32_be(s[6 + k], s[7 + k], s[8 + k], s[9 + k]);
                            if n_sources > MAX_LEN {
                                None
                            } else {
                                match bin_dec_instrs(s.skip(10 + k), n_sources as int) {
                                    Some((sources, k2)) => Some(
                                        (
                                            Value::Bytecode(Prog { sources, steps }),
                                            10 + k + k2,
                                        ),
                                    ),
                                    None => None,
                                }
                            }
                        },
                        None => None,
                    }
                }
            }
        } else if code == TYPE_SCOPE {
            if s.len() < 8 {
                None
            } else if s[2] != TYPE_STRING || s[3] != FLAG_VALUE {
                None
            } else {
                let n = u32_be(s[4], s[5], s[6], s[7]);
                if n > MAX_LEN || s.len() < 8 + n {
                    None
                } else {
                    let bs = s.subrange(8, 8 + n);
                    if bs == scope_bytes(Scope::Global) {
                        Some((Value::Scope(Scope::Global), 8 + n))
                    } else if bs == scope_bytes(Scope::Local) {
                        Some((Value::Scope(Scope::Local), 8 + n))
                    } else {
                        None
                    }
                }
            }
        } else {
            // TYPE_TRAVERSER: a raw 8-byte bulk, then a fully-qualified value.
            if s.len() < 10 {
                None
            } else {
                let bulk = u64_be(s[2], s[3], s[4], s[5], s[6], s[7], s[8], s[9]) as i64;
                match bin_dec(s.skip(10)) {
                    Some((v, k)) => Some((Value::Traverser(bulk, Box::new(v)), 10 + k)),
                    None => None,
                }
            }
        }
    }
}

// ---------------------------------------------------------------------------
// Structural lemmas about the encoding.
// ---------------------------------------------------------------------------

/// Skipping twice skips the sum.
pub proof fn lemma_skip_skip<A>(s: Seq<A>, a: int, b: int)
    requires
        0 <= a,
        0 <= b,
        a + b <= s.len(),
    ensures
        s.skip(a).skip(b) == s.skip(a + b),
{
    assert(s.skip(a).skip(b) =~= s.skip(a + b));
}

/// Appending one item appends its encoding.
pub proof fn lemma_bin_enc_seq_push(s: Seq<Value>, v: Value)
    ensures
        bin_enc_seq(s.push(v)) == bin_enc_seq(s) + bin_enc(v),
    decreases s.len(),
{
    let sp = s.push(v);
    if s.len() == 0 {
        assert(sp[0] == v);
        assert(sp.skip(1) =~= Seq::<Value>::empty());
        assert(bin_enc_seq(sp) == bin_enc(v) + bin_enc_seq(Seq::<Value>::empty()));
        assert(bin_enc(v) + Seq::<u8>::empty() =~= Seq::<u8>::empty() + bin_enc(v));
    } else {
        assert(sp[0] == s[0]);
        assert(sp.skip(1) =~= s.skip(1).push(v));
        lemma_bin_enc_seq_push(s.skip(1), v);
        assert(bin_enc(s[0]) + (bin_enc_seq(s.skip(1)) + bin_enc(v)) =~= (bin_enc(s[0])
            + bin_enc_seq(s.skip(1))) + bin_enc(v));
    }
}

/// Appending one entry appends its key and value encodings.
pub proof fn lemma_bin_enc_pairs_push(s: Seq<(Key, Value)>, k: Key, v: Value)
    ensures
        bin_enc_pairs(s.push((k, v))) == bin_enc_pairs(s) + enc_key(k) + bin_enc(v),
    decreases s.len(),
{
    let sp = s.push((k, v));
    if s.len() == 0 {
        assert(sp[0] == (k, v));
        assert(sp.skip(1) =~= Seq::<(Key, Value)>::empty());
        assert(bin_enc_pairs(sp) == enc_key(k) + bin_enc(v) + bin_enc_pairs(
            Seq::<(Key, Value)>::empty(),
        ));
        assert(enc_key(k) + bin_enc(v) + Seq::<u8>::empty() =~= Seq::<u8>::empty() + enc_key(k)
            + bin_enc(v));
    } else {
        assert(sp[0] == s[0]);
        assert(sp.skip(1) =~= s.skip(1).push((k, v)));
        lemma_bin_enc_pairs_push(s.skip(1), k, v);
        assert(enc_key(s[0].0) + bin_enc(s[0].1) + (bin_enc_pairs(s.skip(1)) + enc_key(k)
            + bin_enc(v)) =~= (enc_key(s[0].0) + bin_enc(s[0].1) + bin_enc_pairs(s.skip(1)))
            + enc_key(k) + bin_enc(v));
    }
}

/// Appending one instruction appends its encoding.
pub proof fn lemma_bin_enc_instrs_push(s: Seq<Instr>, i: Instr)
    ensures
        bin_enc_instrs(s.push(i)) == bin_enc_instrs(s) + bin_enc_instr(i),
    decreases s.len(),
{
    let sp = s.push(i);
    if s.len() == 0 {
        assert(sp[0] == i);
        assert(sp.skip(1) =~= Seq::<Instr>::empty());
        assert(bin_enc_instrs(sp) == bin_enc_instr(i) + bin_enc_instrs(Seq::<Instr>::empty()));
        assert(bin_enc_instr(i) + Seq::<u8>::empty() =~= Seq::<u8>::empty() + bin_enc_instr(i));
    } else {
        assert(sp[0] == s[0]);
        assert(sp.skip(1) =~= s.skip(1).push(i));
        lemma_bin_enc_instrs_push(s.skip(1), i);
        assert(bin_enc_instr(s[0]) + (bin_enc_instrs(s.skip(1)) + bin_enc_instr(i)) =~= (
        bin_enc_instr(s[0]) + bin_enc_instrs(s.skip(1))) + bin_enc_instr(i));
    }
}

// ---------------------------------------------------------------------------
// Message envelopes.
// ---------------------------------------------------------------------------

/// The version byte every binary frame starts with (after the request
/// header's content-type prefix).
pub const VERSION_BYTE: u8 = 0x81;

/// The content type announced by binary requests.
pub open spec fn binary_content_type() -> Seq<char> {
    "application/vnd.graphbinary-v1.0"@
}

/// The request header: one length byte, then the content-type string.
pub open spec fn request_header() -> Seq<u8> {
    seq![encode_utf8(binary_content_type()).len() as u8] + encode_utf8(binary_content_type())
}

/// Whether a request envelope can be written.
pub open spec fn req_encodable(op: Seq<char>, processor: Seq<char>, args: Seq<(Key, Value)>) -> bool {
    &&& str_encodable(op)
    &&& str_encodable(processor)
    &&& args.len() <= MAX_LEN
    &&& pairs_encodable(args)
}

/// The byte layout of a request envelope: content-type header, version byte,
/// the raw request id, the op and processor names, then the argument count
/// and each argument as a fully-qualified key/value entry.
pub open spec fn request_bytes(
    id: Uuid,
    op: Seq<char>,
    processor: Seq<char>,
    args: Seq<(Key, Value)>,
) -> Seq<u8> {
    request_header() + seq![VERSION_BYTE] + be8(id.hi) + be8(id.lo) + enc_str(op) + enc_str(
        processor,
    ) + be4(args.len() as u32) + bin_enc_pairs(args)
}

/// Spec-level mirror of a decoded response envelope.
pub struct ResponseModel {
    pub request_id: Uuid,
    pub status_code: i16,
    pub status_message: Seq<char>,
    pub status_attributes: Seq<(Key, Value)>,
    pub result_meta: Seq<(Key, Value)>,
    pub result_data: Option<Value>,
}

/// Decodes a response envelope: version byte, non-null request id, status
/// code narrowed to 16 bits, nullable status message (null reads as the
/// empty string), two key/value maps, and one fully-qualified result value
/// where a null stands for no data. Trailing bytes are ignored.
pub open spec fn dec_response(s: Seq<u8>) -> Option<ResponseModel> {
    if s.len() < 18 || s[0] != VERSION_BYTE || s[1] != FLAG_VALUE {
        None
    } else {
        let id = Uuid {
            hi: u64_be(s[2], s[3], s[4], s[5], s[6], s[7], s[8], s[9]),
            lo: u64_be(s[10], s[11], s[12], s[13], s[14], s[15], s[16], s[17]),
        };
        let r1 = s.skip(18);
        if r1.len() < 4 {
            None
        } else {
            let code = u32_be(r1[0], r1[1], r1[2], r1[3]) as i32;
            if code < -32768 || code > 32767 {
                None
            } else {
                let r2 = r1.skip(4);
                let msg_step: Option<(Seq<char>, int)> = if r2.len() < 1 {
                    None
                } else if r2[0] == FLAG_NULL {
                    Some((Seq::empty(), 1int))
                } else if r2[0] == FLAG_VALUE {
                    match dec_str(r2.skip(1)) {
                        Some((cs, k)) => Some((cs, 1 + k)),
                        None => None,
                    }
                } else {
                    None
                };
                match msg_step {
                    None => None,
                    Some((msg, k1)) => {
                        let r3 = r2.skip(k1);
                        if r3.len() < 4 {
                            None
                        } else {
                            let n_attr = u32_be(r3[0], r3[1], r3[2], r3[3]);
                            if n_attr > MAX_LEN {
                                None
                            } else {
                                match bin_dec_pairs(r3.skip(4), n_attr as int) {
                                    None => None,
                                    Some((attrs, k2)) => {
                                        let r4 = r3.skip(4 + k2);
                                        if r4.len() < 4 {
                                            None
                                        } else {
                                            let n_meta = u32_be(r4[0], r4[1], r4[2], r4[3]);
                                            if n_meta > MAX_LEN {
                                                None
                                            } else {
                                                match bin_dec_pairs(r4.skip(4), n_meta as int) {
                                                    None => None,
                                                    Some((meta, k3)) => {
                                                        let r5 = r4.skip(4 + k3);
                                                        match bin_dec(r5) {
                                                            None => None,
                                                            Some((v, _)) => Some(
                                                                ResponseModel {
                                                                    request_id: id,
                                                                    status_code: code as i16,
                                                                    status_message: msg,
                                                                    status_attributes: attrs,
                                                                    result_meta: meta,
                                                                    result_data: if v is Null {
                                                                        None
                                                                    } else {
                                                                        Some(v)
                                                                    },
                                                                },
                                                            ),
                                                        }
                                                    },
                                                }
                                            }
                                        }
                                    },
                                }
                            }
                        }
                    },
                }
            }
        }
    }
}

// ---------------------------------------------------------------------------
// Step combinators: how a finished prefix of a sequence decode combines with
// the decode of the remainder.
// ---------------------------------------------------------------------------

pub open spec fn elems_step(
    done: Seq<Value>,
    consumed: int,
    rest: Option<(Seq<Value>, int)>,
) -> Option<(Seq<Value>, int)> {
    match rest {
        Some((vs, m)) => Some((done + vs, consumed + m)),
        None => None,
    }
}

pub open spec fn pairs_step(
    done: Seq<(Key, Value)>,
    consumed: int,
    rest: Option<(Seq<(Key, Value)>, int)>,
) -> Option<(Seq<(Key, Value)>, int)> {
    match rest {
        Some((ps, m)) => Some((done + ps, consumed + m)),
        None => None,
    }
}

pub open spec fn instrs_step(
    done: Seq<Instr>,
    consumed: int,
    rest: Option<(Seq<Instr>, int)>,
) -> Option<(Seq<Instr>, int)> {
    match rest {
        Some((is, m)) => Some((done + is, consumed + m)),
        None => None,
    }
}

pub proof fn lemma_elems_step_assoc(
    d: Seq<Value>,
    c: int,
    v: Value,
    k: int,
    r: Option<(Seq<Value>, int)>,
)
    ensures
        elems_step(d, c, elems_step(seq![v], k, r)) == elems_step(d.push(v), c + k, r),
{
    match r {
        Some((vs, m)) => {
            assert(d + (seq![v] + vs) =~= d.push(v) + vs);
        },
        None => {},
    }
}

pub proof fn lemma_pairs_step_assoc(
    d: Seq<(Key, Value)>,
    c: int,
    p: (Key, Value),
    k: int,
    r: Option<(Seq<(Key, Value)>, int)>,
)
    ensures
        pairs_step(d, c, pairs_step(seq![p], k, r)) == pairs_step(d.push(p), c + k, r),
{
    match r {
        Some((ps, m)) => {
            assert(d + (seq![p] + ps) =~= d.push(p) + ps);
        },
        None => {},
    }
}

pub proof fn lemma_instrs_step_assoc(
    d: Seq<Instr>,
    c: int,
    i: Instr,
    k: int,
    r: Option<(Seq<Instr>, int)>,
)
    ensures
        instrs_step(d, c, instrs_step(seq![i], k, r)) == instrs_step(d.push(i), c + k, r),
{
    match r {
        Some((is, m)) => {
            assert(d + (seq![i] + is) =~= d.push(i) + is);
        },
        None => {},
    }
}

/// Decodes exactly `n` fully-qualified values.
pub open spec fn bin_dec_elems(s: Seq<u8>, n: int) -> Option<(Seq<Value>, int)>
    decreases s.len(), n,
{
    if n <= 0 {
        Some((Seq::empty(), 0))
    } else {
        match bin_dec(s) {
            Some((v, k)) => if !(0 < k <= s.len()) {
                None
            } else {
                match bin_dec_elems(s.skip(k), n - 1) {
                    Some((vs, m)) => Some((seq![v] + vs, k + m)),
                    None => None,
                }
            },
            None => None,
        }
    }
}

/// Decodes exactly `n` key/value entries of a map.
pub open spec fn bin_dec_pairs(s: Seq<u8>, n: int) -> Option<(Seq<(Key, Value)>, int)>
    decreases s.len(), n,
{
    if n <= 0 {
        Some((Seq::empty(), 0))
    } else {
        match bin_dec(s) {
            Some((kv, k1)) => if !(0 < k1 <= s.len()) {
                None
            } else {
                match key_of_value(kv) {
                    Some(key) => match bin_dec(s.skip(k1)) {
                        Some((v, k2)) => if !(0 < k2 <= s.len() - k1) {
                            None
                        } else {
                            match bin_dec_pairs(s.skip(k1 + k2), n - 1) {
                                Some((ps, m)) => Some((seq![(key, v)] + ps, k1 + k2 + m)),
                                None => None,
                            }
                        },
                        None => None,
                    },
                    None => None,
                }
            },
            None => None,
        }
    }
}

/// Decodes exactly `n` instructions.
pub open spec fn bin_dec_instrs(s: Seq<u8>, n: int) -> Option<(Seq<Instr>, int)>
    decreases s.len(), n,
{
    if n <= 0 {
        Some((Seq::empty(), 0))
    } else {
        match dec_str(s) {
            Some((op, k1)) => if !(0 < k1 <= s.len() - 4) {
                None
            } else {
                let m = u32_be(s[k1], s[k1 + 1], s[k1 + 2], s[k1 + 3]);
                if m > MAX_LEN {
                    None
                } else {
                    match bin_dec_elems(s.skip(k1 + 4), m as int) {
                        Some((args, k2)) => if !(0 <= k2 && k1 + 4 + k2 <= s.len()) {
                            None
                        } else {
                            match bin_dec_instrs(s.skip(k1 + 4 + k2), n - 1) {
                                Some((instrs, k3)) => Some(
                                    (
                                        seq![Instr { op, args }] + instrs,
                                        k1 + 4 + k2 + k3,
                                    ),
                                ),
                                None => None,
                            }
                        },
                        None => None,
                    }
                }
            },
            None => None,
        }
    }
}

} // verus!
