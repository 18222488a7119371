use vstd::prelude::*;

use crate::binary::{
    bin_enc, bin_enc_instr, bin_enc_instrs, bin_enc_pairs, bin_enc_seq, bin_encodable, enc_key,
    enc_str, instr_encodable, instrs_encodable, key_encodable, pairs_encodable, prog_encodable,
    seq_encodable, str_encodable, FLAG_NULL, FLAG_VALUE, MAX_LEN, TYPE_BYTECODE, TYPE_DATE,
    TYPE_DOUBLE, TYPE_FLOAT, TYPE_INTEGER, TYPE_LIST, TYPE_LONG, TYPE_MAP, TYPE_SCOPE, TYPE_SET,
    TYPE_STRING, TYPE_TRAVERSER, TYPE_UNSPECIFIED_NULL, TYPE_UUID,
};
use crate::bytes::{be4, be8, push_be4, push_be8, push_bytes};
use crate::error::{GremlinError, GremlinResult};
use crate::structure::{
    lemma_model_instrs, lemma_model_pairs, lemma_model_seq, model_instrs, model_pairs, model_seq,
    Bytecode, Date, GKey, GValue, Instr, Instruction, Key, Prog, Scope, Traverser, Uuid, Value,
};
use crate::binary::{lemma_bin_enc_instrs_push, lemma_bin_enc_pairs_push, lemma_bin_enc_seq_push};
use crate::structure::{lemma_model_instrs_push, lemma_model_pairs_push, lemma_model_seq_push};
use vstd::string::StringExecFns;
use crate::binary::{
    bin_dec, bin_dec_elems, bin_dec_instrs, bin_dec_pairs, dec_response, dec_str, elems_step,
    instrs_step, key_of_value, known_code, lemma_elems_step_assoc, lemma_instrs_step_assoc,
    lemma_pairs_step_assoc, lemma_skip_skip, pairs_step, req_encodable, request_bytes,
    request_header, ResponseModel, VERSION_BYTE,
};
use crate::structure::{lemma_model_str_pairs, lemma_model_str_pairs_push, model_str_pairs};
use crate::bytes::{read_u32_be, read_u64_be};
use vstd::utf8::{decode_utf8, valid_utf8};

verus! {

broadcast use vstd::slice::axiom_spec_len;

fn cast_error(msg: &str) -> (e: GremlinError)
    ensures
        e matches GremlinError::Cast(_),
{
    GremlinError::Cast(msg.to_owned())
}

// ---------------------------------------------------------------------------
// Encoding.
// ---------------------------------------------------------------------------

/// Writes the length-prefixed UTF-8 payload of a string.
fn write_str_payload(buf: &mut Vec<u8>, s: &str) -> (r: GremlinResult<()>)
    ensures
        match r {
            Ok(_) => str_encodable(s@) && final(buf)@ == old(buf)@ + enc_str(s@),
            Err(e) => !str_encodable(s@) && e matches GremlinError::Cast(_),
        },
{
    let b = s.as_bytes();
    let n = b.len();
    if n > MAX_LEN as usize {
        return Err(cast_error("String length exceeds the signed length prefix"));
    }
    push_be4(buf, n as u32);
    push_bytes(buf, b);
    assert(buf@ =~= old(buf)@ + enc_str(s@));
    Ok(())
}

/// Writes the length prefix and the fully-qualified items of a collection.
fn encode_collection(items: &Vec<GValue>, buf: &mut Vec<u8>) -> (r: GremlinResult<()>)
    ensures
        match r {
            Ok(_) => items@.len() <= MAX_LEN && seq_encodable(model_seq(items@)) && final(buf)@
                == old(buf)@ + be4(items@.len() as u32) + bin_enc_seq(model_seq(items@)),
            Err(e) => !(items@.len() <= MAX_LEN && seq_encodable(model_seq(items@))) && (
            e matches GremlinError::Cast(_)),
        },
    decreases items,
{
    let n = items.len();
    if n > MAX_LEN as usize {
        proof {
            lemma_model_seq(items@);
        }
        return Err(cast_error("Collection length exceeds the signed length prefix"));
    }
    push_be4(buf, n as u32);
    let ghost base = buf@;
    proof {
        lemma_model_seq(items@);
    }
    let mut j: usize = 0;
    while j < n
        invariant
            j <= n,
            n == items@.len(),
            n <= MAX_LEN as usize,
            buf@ == base + bin_enc_seq(model_seq(items@.take(j as int))),
            seq_encodable(model_seq(items@.take(j as int))),
        decreases n - j,
    {
        let r = encode_value(&items[j], buf);
        match r {
            Ok(_) => {
                proof {
                    let prefix = items@.take(j as int);
                    assert(items@.take(j as int + 1) =~= prefix.push(items@[j as int]));
                    lemma_model_seq_push(prefix, items@[j as int]);
                    lemma_bin_enc_seq_push(model_seq(prefix), items@[j as int].model());
                    assert(base + bin_enc_seq(model_seq(prefix)) + bin_enc(
                        items@[j as int].model(),
                    ) =~= base + (bin_enc_seq(model_seq(prefix)) + bin_enc(
                        items@[j as int].model(),
                    )));
                    lemma_model_seq(items@.take(j as int + 1));
                }
                j = j + 1;
            },
            Err(e) => {
                proof {
                    lemma_model_seq(items@);
                    assert(!bin_encodable(items@[j as int].model()));
                    assert(model_seq(items@)[j as int] == items@[j as int].model());
                    assert(!bin_encodable(model_seq(items@)[j as int]));
                    assert(!seq_encodable(model_seq(items@)));
                }
                return Err(e);
            },
        }
    }
    proof {
        assert(items@.take(n as int) =~= items@);
        assert(buf@ =~= old(buf)@ + be4(items@.len() as u32) + bin_enc_seq(model_seq(items@)));
    }
    Ok(())
}

/// Writes the length prefix and the fully-qualified entries of a map.
fn encode_entries(pairs: &Vec<(GKey, GValue)>, buf: &mut Vec<u8>) -> (r: GremlinResult<()>)
    ensures
        match r {
            Ok(_) => pairs@.len() <= MAX_LEN && pairs_encodable(model_pairs(pairs@)) && final(buf)@ == old(buf)@ + be4(pairs@.len() as u32) + bin_enc_pairs(model_pairs(pairs@)),
            Err(e) => !(pairs@.len() <= MAX_LEN && pairs_encodable(model_pairs(pairs@))) && (
            e matches GremlinError::Cast(_)),
        },
    decreases pairs,
{
    let n = pairs.len();
    if n > MAX_LEN as usize {
        proof {
            lemma_model_pairs(pairs@);
        }
        return Err(cast_error("Map length exceeds the signed length prefix"));
    }
    push_be4(buf, n as u32);
    let ghost base = buf@;
    proof {
        lemma_model_pairs(pairs@);
    }
    let mut j: usize = 0;
    while j < n
        invariant
            j <= n,
            n == pairs@.len(),
            n <= MAX_LEN as usize,
            buf@ == base + bin_enc_pairs(model_pairs(pairs@.take(j as int))),
            pairs_encodable(model_pairs(pairs@.take(j as int))),
        decreases n - j,
    {
        let ghost key_model = pairs@[j as int].0.model();
        let ghost val_model = pairs@[j as int].1.model();
        let ghost before = buf@;
        match &pairs[j].0 {
            GKey::String(s) => {
                buf.push(TYPE_STRING);
                buf.push(FLAG_VALUE);
                let r = write_str_payload(buf, s.as_str());
                match r {
                    Ok(_) => {
                        assert(buf@ =~= before + enc_key(key_model));
                    },
                    Err(e) => {
                        proof {
                            lemma_model_pairs(pairs@);
                            assert(!key_encodable(model_pairs(pairs@)[j as int].0));
                            assert(!pairs_encodable(model_pairs(pairs@)));
                        }
                        return Err(e);
                    },
                }
            },
            _ => {
                proof {
                    lemma_model_pairs(pairs@);
                    assert(!key_encodable(model_pairs(pairs@)[j as int].0));
                    assert(!pairs_encodable(model_pairs(pairs@)));
                }
                return Err(cast_error("Only string keys can be written"));
            },
        }
        let r = encode_value(&pairs[j].1, buf);
        match r {
            Ok(_) => {
                proof {
                    let prefix = pairs@.take(j as int);
                    assert(pairs@.take(j as int + 1) =~= prefix.push(pairs@[j as int]));
                    assert(pairs@[j as int] == (pairs@[j as int].0, pairs@[j as int].1));
                    lemma_model_pairs_push(prefix, pairs@[j as int].0, pairs@[j as int].1);
                    lemma_bin_enc_pairs_push(model_pairs(prefix), key_model, val_model);
                    assert(buf@ =~= base + bin_enc_pairs(
                        model_pairs(pairs@.take(j as int + 1)),
                    ));
                    lemma_model_pairs(pairs@.take(j as int + 1));
                }
                j = j + 1;
            },
            Err(e) => {
                proof {
                    lemma_model_pairs(pairs@);
                    assert(!bin_encodable(model_pairs(pairs@)[j as int].1));
                    assert(!pairs_encodable(model_pairs(pairs@)));
                }
                return Err(e);
            },
        }
    }
    proof {
        assert(pairs@.take(n as int) =~= pairs@);
        assert(buf@ =~= old(buf)@ + be4(pairs@.len() as u32) + bin_enc_pairs(
            model_pairs(pairs@),
        ));
    }
    Ok(())
}

/// Writes one instruction: its operator name, argument count and arguments.
fn encode_instruction(instruction: &Instruction, buf: &mut Vec<u8>) -> (r: GremlinResult<()>)
    ensures
        match r {
            Ok(_) => instr_encodable(instruction.model()) && final(buf)@ == old(buf)@
                + bin_enc_instr(instruction.model()),
            Err(e) => !instr_encodable(instruction.model()) && (
            e matches GremlinError::Cast(_)),
        },
    decreases instruction,
{
    let r = write_str_payload(buf, instruction.operator.as_str());
    match r {
        Ok(_) => {},
        Err(e) => {
            proof {
                lemma_model_seq(instruction.args@);
            }
            return Err(e);
        },
    }
    let r = encode_collection(&instruction.args, buf);
    match r {
        Ok(_) => {
            proof {
                lemma_model_seq(instruction.args@);
                assert(buf@ =~= old(buf)@ + bin_enc_instr(instruction.model()));
            }
            Ok(())
        },
        Err(e) => {
            proof {
                lemma_model_seq(instruction.args@);
            }
            Err(e)
        },
    }
}

/// Writes the instruction count and then each instruction of one half of a
/// traversal program.
fn encode_instructions(instrs: &Vec<Instruction>, buf: &mut Vec<u8>) -> (r: GremlinResult<()>)
    ensures
        match r {
            Ok(_) => instrs@.len() <= MAX_LEN && instrs_encodable(model_instrs(instrs@)) && final(buf)@ == old(buf)@ + be4(instrs@.len() as u32) + bin_enc_instrs(model_instrs(instrs@)),
            Err(e) => !(instrs@.len() <= MAX_LEN && instrs_encodable(model_instrs(instrs@))) && (
            e matches GremlinError::Cast(_)),
        },
    decreases instrs,
{
    let n = instrs.len();
    if n > MAX_LEN as usize {
        proof {
            lemma_model_instrs(instrs@);
        }
        return Err(cast_error("Instruction count exceeds the signed length prefix"));
    }
    push_be4(buf, n as u32);
    let ghost base = buf@;
    proof {
        lemma_model_instrs(instrs@);
    }
    let mut j: usize = 0;
    while j < n
        invariant
            j <= n,
            n == instrs@.len(),
            n <= MAX_LEN as usize,
            buf@ == base + bin_enc_instrs(model_instrs(instrs@.take(j as int))),
            instrs_encodable(model_instrs(instrs@.take(j as int))),
        decreases n - j,
    {
        let r = encode_instruction(&instrs[j], buf);
        match r {
            Ok(_) => {
                proof {
                    let prefix = instrs@.take(j as int);
                    assert(instrs@.take(j as int + 1) =~= prefix.push(instrs@[j as int]));
                    lemma_model_instrs_push(prefix, instrs@[j as int]);
                    lemma_bin_enc_instrs_push(model_instrs(prefix), instrs@[j as int].model());
                    assert(buf@ =~= base + bin_enc_instrs(
                        model_instrs(instrs@.take(j as int + 1)),
                    ));
                    lemma_model_instrs(instrs@.take(j as int + 1));
                }
                j = j + 1;
            },
            Err(e) => {
                proof {
                    lemma_model_instrs(instrs@);
                    assert(!instr_encodable(instrs@[j as int].model()));
                    assert(model_instrs(instrs@)[j as int] == instrs@[j as int].model());
                    assert(!instr_encodable(model_instrs(instrs@)[j as int]));
                    assert(!instrs_encodable(model_instrs(instrs@)));
                }
                return Err(e);
            },
        }
    }
    proof {
        assert(instrs@.take(n as int) =~= instrs@);
        assert(buf@ =~= old(buf)@ + be4(instrs@.len() as u32) + bin_enc_instrs(
            model_instrs(instrs@),
        ));
    }
    Ok(())
}

/// Writes the fully-qualified form of one value.
#[verifier::rlimit(60)]
fn encode_value(v: &GValue, buf: &mut Vec<u8>) -> (r: GremlinResult<()>)
    ensures
        match r {
            Ok(_) => bin_encodable(v.model()) && final(buf)@ == old(buf)@ + bin_enc(v.model()),
            Err(e) => !bin_encodable(v.model()) && e matches GremlinError::Cast(_),
        },
    decreases v,
{
    match v {
        GValue::Null => {
            buf.push(TYPE_UNSPECIFIED_NULL);
            buf.push(FLAG_NULL);
            assert(buf@ =~= old(buf)@ + bin_enc(v.model()));
            Ok(())
        },
        GValue::Int32(x) => {
            buf.push(TYPE_INTEGER);
            buf.push(FLAG_VALUE);
            push_be4(buf, *x as u32);
            assert(buf@ =~= old(buf)@ + bin_enc(v.model()));
            Ok(())
        },
        GValue::Int64(x) => {
            buf.push(TYPE_LONG);
            buf.push(FLAG_VALUE);
            push_be8(buf, *x as u64);
            assert(buf@ =~= old(buf)@ + bin_enc(v.model()));
            Ok(())
        },
        GValue::Float(bits) => {
            buf.push(TYPE_FLOAT);
            buf.push(FLAG_VALUE);
            push_be4(buf, *bits);
            assert(buf@ =~= old(buf)@ + bin_enc(v.model()));
            Ok(())
        },
        GValue::Double(bits) => {
            buf.push(TYPE_DOUBLE);
            buf.push(FLAG_VALUE);
            push_be8(buf, *bits);
            assert(buf@ =~= old(buf)@ + bin_enc(v.model()));
            Ok(())
        },
        GValue::Date(d) => {
            buf.push(TYPE_DATE);
            buf.push(FLAG_VALUE);
            push_be8(buf, d.millis as u64);
            assert(buf@ =~= old(buf)@ + bin_enc(v.model()));
            Ok(())
        },
        GValue::Uuid(u) => {
            buf.push(TYPE_UUID);
            buf.push(FLAG_VALUE);
            push_be8(buf, u.hi);
            push_be8(buf, u.lo);
            assert(buf@ =~= old(buf)@ + bin_enc(v.model()));
            Ok(())
        },
        GValue::String(s) => {
            buf.push(TYPE_STRING);
            buf.push(FLAG_VALUE);
            let r = write_str_payload(buf, s.as_str());
            match r {
                Ok(_) => {
                    assert(buf@ =~= old(buf)@ + bin_enc(v.model()));
                    Ok(())
                },
                Err(e) => Err(e),
            }
        },
        GValue::List(items) => {
            buf.push(TYPE_LIST);
            buf.push(FLAG_VALUE);
            let r = encode_collection(items, buf);
            match r {
                Ok(_) => {
                    proof {
                        lemma_model_seq(items@);
                        assert(buf@ =~= old(buf)@ + bin_enc(v.model()));
                    }
                    Ok(())
                },
                Err(e) => {
                    proof {
                        lemma_model_seq(items@);
                    }
                    Err(e)
                },
            }
        },
        GValue::GSet(items) => {
            buf.push(TYPE_SET);
            buf.push(FLAG_VALUE);
            let r = encode_collection(items, buf);
            match r {
                Ok(_) => {
                    proof {
                        lemma_model_seq(items@);
                        assert(buf@ =~= old(buf)@ + bin_enc(v.model()));
                    }
                    Ok(())
                },
                Err(e) => {
                    proof {
                        lemma_model_seq(items@);
                    }
                    Err(e)
                },
            }
        },
        GValue::GMap(pairs) => {
            buf.push(TYPE_MAP);
            buf.push(FLAG_VALUE);
            let r = encode_entries(pairs, buf);
            match r {
                Ok(_) => {
                    proof {
                        lemma_model_pairs(pairs@);
                        assert(buf@ =~= old(buf)@ + bin_enc(v.model()));
                    }
                    Ok(())
                },
                Err(e) => {
                    proof {
                        lemma_model_pairs(pairs@);
                    }
                    Err(e)
                },
            }
        },
        GValue::Bytecode(code) => {
            let ghost p = code.model();
            proof {
                assert(p.steps == model_instrs(code.steps@));
                assert(p.sources == model_instrs(code.sources@));
                assert(v.model() == Value::Bytecode(p));
            }
            buf.push(TYPE_BYTECODE);
            buf.push(FLAG_VALUE);
            let r = encode_instructions(&code.steps, buf);
            match r {
                Ok(_) => {},
                Err(e) => {
                    proof {
                        lemma_model_instrs(code.steps@);
                        assert(!prog_encodable(p));
                    }
                    return Err(e);
                },
            }
            let r = encode_instructions(&code.sources, buf);
            match r {
                Ok(_) => {
                    proof {
                        lemma_model_instrs(code.steps@);
                        lemma_model_instrs(code.sources@);
                        assert(prog_encodable(p));
                        assert(bin_enc(v.model()) == seq![TYPE_BYTECODE, FLAG_VALUE] + be4(
                            p.steps.len() as u32,
                        ) + bin_enc_instrs(p.steps) + be4(p.sources.len() as u32)
                            + bin_enc_instrs(p.sources));
                        assert(buf@ =~= old(buf)@ + bin_enc(v.model()));
                    }
                    Ok(())
                },
                Err(e) => {
                    proof {
                        lemma_model_instrs(code.sources@);
                        assert(!prog_encodable(p));
                    }
                    Err(e)
                },
            }
        },
        GValue::Scope(s) => {
            buf.push(TYPE_SCOPE);
            buf.push(FLAG_VALUE);
            buf.push(TYPE_STRING);
            buf.push(FLAG_VALUE);
            match s {
                Scope::Global => {
                    push_be4(buf, 6);
                    buf.push(103);
                    buf.push(108);
                    buf.push(111);
                    buf.push(98);
                    buf.push(97);
                    buf.push(108);
                    assert(buf@ =~= old(buf)@ + bin_enc(v.model()));
                },
                Scope::Local => {
                    push_be4(buf, 5);
                    buf.push(108);
                    buf.push(111);
                    buf.push(99);
                    buf.push(97);
                    buf.push(108);
                    assert(buf@ =~= old(buf)@ + bin_enc(v.model()));
                },
            }
            Ok(())
        },
        _ => Err(cast_error("This value has no binary form")),
    }
}

impl GValue {
    /// Appends the fully-qualified binary form of this value to `buf`.
    ///
    /// Succeeds exactly when the binary format carries this value: the
    /// variant is supported, every length fits the signed 4-byte prefix and
    /// map keys are strings. On failure the buffer is left unchanged.
    pub fn to_be_bytes(&self, buf: &mut Vec<u8>) -> (r: GremlinResult<()>)
        ensures
            r is Ok <==> bin_encodable(self.model()),
            match r {
                Ok(_) => final(buf)@ == old(buf)@ + bin_enc(self.model()),
                Err(e) => final(buf)@ == old(buf)@ && e matches GremlinError::Cast(_),
            },
    {
        let mut tmp: Vec<u8> = Vec::new();
        let r = encode_value(self, &mut tmp);
        match r {
            Ok(_) => {
                buf.append(&mut tmp);
                assert(buf@ =~= old(buf)@ + bin_enc(self.model()));
                Ok(())
            },
            Err(e) => Err(e),
        }
    }
}


// ---------------------------------------------------------------------------
// Decoding.
// ---------------------------------------------------------------------------

/// Relies on std's `String::from_utf8`: it returns the decoded string exactly
/// when the bytes are valid UTF-8, and rejects them otherwise.
#[verifier::external_body]
fn string_from_utf8(bytes: Vec<u8>) -> (r: Option<String>)
    ensures
        r is Some <==> valid_utf8(bytes@),
        r matches Some(s) ==> s@ == decode_utf8(bytes@),
{
    String::from_utf8(bytes).ok()
}

/// Reads a length-prefixed UTF-8 string payload.
fn read_str(bytes: &[u8], pos: usize) -> (r: GremlinResult<(String, usize)>)
    requires
        pos <= bytes@.len(),
    ensures
        match r {
            Ok((s, next)) => pos < next <= bytes@.len() && dec_str(bytes@.skip(pos as int))
                == Some((s@, next - pos as int)),
            Err(e) => dec_str(bytes@.skip(pos as int)) is None && (
            e matches GremlinError::Cast(_)),
        },
{
    let ghost sv = bytes@.skip(pos as int);
    if bytes.len() - pos < 4 {
        return Err(cast_error("Invalid bytes for String length"));
    }
    let n32 = read_u32_be(bytes, pos);
    if n32 > MAX_LEN {
        return Err(cast_error("String length did not fit into the signed prefix"));
    }
    let n = n32 as usize;
    if bytes.len() - pos - 4 < n {
        return Err(cast_error("Missing bytes for String value"));
    }
    let mut tmp: Vec<u8> = Vec::new();
    let mut i: usize = 0;
    while i < n
        invariant
            i <= n,
            pos + 4 + n <= bytes@.len(),
            bytes@.len() <= usize::MAX,
            tmp@ == bytes@.subrange(pos + 4, pos + 4 + i),
        decreases n - i,
    {
        tmp.push(bytes[pos + 4 + i]);
        assert(tmp@ =~= bytes@.subrange(pos + 4, pos + 4 + (i + 1)));
        i = i + 1;
    }
    assert(tmp@ =~= sv.subrange(4, 4 + n));
    match string_from_utf8(tmp) {
        Some(s) => Ok((s, pos + 4 + n)),
        None => Err(cast_error("Invalid bytes for String value")),
    }
}

fn is_known_code(code: u8) -> (r: bool)
    ensures
        r == known_code(code),
{
    code == TYPE_INTEGER || code == TYPE_LONG || code == TYPE_STRING || code == TYPE_DATE || code
        == TYPE_DOUBLE || code == TYPE_FLOAT || code == TYPE_LIST || code == TYPE_MAP || code
        == TYPE_SET || code == TYPE_UUID || code == TYPE_BYTECODE || code == TYPE_SCOPE || code
        == TYPE_TRAVERSER
}

impl GKey {
    /// The guarded conversion from a decoded value to a map key.
    pub fn from_gvalue(v: GValue) -> (r: GremlinResult<GKey>)
        ensures
            match r {
                Ok(k) => key_of_value(v.model()) == Some(k.model()),
                Err(e) => key_of_value(v.model()) is None && (
                e matches GremlinError::Cast(_)),
            },
    {
        match v {
            GValue::String(s) => Ok(GKey::String(s)),
            _ => Err(cast_error("Invalid key bytes")),
        }
    }
}

/// Decodes exactly `n` fully-qualified values starting at `pos`.
fn decode_elems(bytes: &[u8], pos: usize, n: usize) -> (r: GremlinResult<(Vec<GValue>, usize)>)
    requires
        pos <= bytes@.len(),
    ensures
        match r {
            Ok((vs, next)) => pos <= next <= bytes@.len() && bin_dec_elems(
                bytes@.skip(pos as int),
                n as int,
            ) == Some((model_seq(vs@), next - pos as int)),
            Err(e) => bin_dec_elems(bytes@.skip(pos as int), n as int) is None && (
            e matches GremlinError::Cast(_)),
        },
    decreases bytes@.len() - pos, n as int, 1int,
{
    let mut out: Vec<GValue> = Vec::new();
    let mut cur: usize = pos;
    let mut j: usize = 0;
    while j < n
        invariant
            pos <= cur <= bytes@.len(),
            j <= n,
            bin_dec_elems(bytes@.skip(pos as int), n as int) == elems_step(
                model_seq(out@),
                cur - pos,
                bin_dec_elems(bytes@.skip(cur as int), n - j),
            ),
        decreases n - j,
    {
        let r = decode_value(bytes, cur);
        match r {
            Ok((v, next)) => {
                proof {
                    lemma_skip_skip(bytes@, cur as int, next - cur as int);
                    assert(bin_dec_elems(bytes@.skip(cur as int), n - j) == elems_step(
                        seq![v.model()],
                        next - cur,
                        bin_dec_elems(bytes@.skip(next as int), n - j - 1),
                    ));
                    lemma_elems_step_assoc(
                        model_seq(out@),
                        cur - pos,
                        v.model(),
                        next - cur,
                        bin_dec_elems(bytes@.skip(next as int), n - j - 1),
                    );
                    lemma_model_seq_push(out@, v);
                }
                out.push(v);
                cur = next;
                j = j + 1;
            },
            Err(e) => {
                assert(bin_dec_elems(bytes@.skip(cur as int), n - j) is None);
                return Err(e);
            },
        }
    }
    proof {
        assert(bin_dec_elems(bytes@.skip(cur as int), 0int) == Some((Seq::<Value>::empty(), 0int)));
        assert(model_seq(out@) + Seq::<Value>::empty() =~= model_seq(out@));
    }
    Ok((out, cur))
}

/// Decodes exactly `n` key/value entries starting at `pos`.
fn decode_pairs(bytes: &[u8], pos: usize, n: usize) -> (r: GremlinResult<
    (Vec<(GKey, GValue)>, usize),
>)
    requires
        pos <= bytes@.len(),
    ensures
        match r {
            Ok((ps, next)) => pos <= next <= bytes@.len() && bin_dec_pairs(
                bytes@.skip(pos as int),
                n as int,
            ) == Some((model_pairs(ps@), next - pos as int)),
            Err(e) => bin_dec_pairs(bytes@.skip(pos as int), n as int) is None && (
            e matches GremlinError::Cast(_)),
        },
    decreases bytes@.len() - pos, n as int, 1int,
{
    let mut out: Vec<(GKey, GValue)> = Vec::new();
    let mut cur: usize = pos;
    let mut j: usize = 0;
    while j < n
        invariant
            pos <= cur <= bytes@.len(),
            j <= n,
            bin_dec_pairs(bytes@.skip(pos as int), n as int) == pairs_step(
                model_pairs(out@),
                cur - pos,
                bin_dec_pairs(bytes@.skip(cur as int), n - j),
            ),
        decreases n - j,
    {
        let r = decode_value(bytes, cur);
        let (kv, next1) = match r {
            Ok(p) => p,
            Err(e) => {
                assert(bin_dec_pairs(bytes@.skip(cur as int), n - j) is None);
                return Err(e);
            },
        };
        let r = GKey::from_gvalue(kv);
        let key = match r {
            Ok(k) => k,
            Err(e) => {
                assert(bin_dec_pairs(bytes@.skip(cur as int), n - j) is None);
                return Err(e);
            },
        };
        let r = decode_value(bytes, next1);
        let (val, next2) = match r {
            Ok(p) => p,
            Err(e) => {
                proof {
                    lemma_skip_skip(bytes@, cur as int, next1 - cur as int);
                    assert(bin_dec_pairs(bytes@.skip(cur as int), n - j) is None);
                }
                return Err(e);
            },
        };
        proof {
            lemma_skip_skip(bytes@, cur as int, next1 - cur as int);
            lemma_skip_skip(bytes@, next1 as int, next2 - next1 as int);
            lemma_skip_skip(bytes@, cur as int, next2 - cur as int);
            assert(bin_dec_pairs(bytes@.skip(cur as int), n - j) == pairs_step(
                seq![(key.model(), val.model())],
                next2 - cur,
                bin_dec_pairs(bytes@.skip(next2 as int), n - j - 1),
            ));
            lemma_pairs_step_assoc(
                model_pairs(out@),
                cur - pos,
                (key.model(), val.model()),
                next2 - cur,
                bin_dec_pairs(bytes@.skip(next2 as int), n - j - 1),
            );
            lemma_model_pairs_push(out@, key, val);
        }
        out.push((key, val));
        cur = next2;
        j = j + 1;
    }
    proof {
        assert(bin_dec_pairs(bytes@.skip(cur as int), 0int) == Some(
            (Seq::<(Key, Value)>::empty(), 0int),
        ));
        assert(model_pairs(out@) + Seq::<(Key, Value)>::empty() =~= model_pairs(out@));
    }
    Ok((out, cur))
}

/// Decodes exactly `n` instructions starting at `pos`.
fn decode_instructions(bytes: &[u8], pos: usize, n: usize) -> (r: GremlinResult<
    (Vec<Instruction>, usize),
>)
    requires
        pos <= bytes@.len(),
    ensures
        match r {
            Ok((instrs, next)) => pos <= next <= bytes@.len() && bin_dec_instrs(
                bytes@.skip(pos as int),
                n as int,
            ) == Some((model_instrs(instrs@), next - pos as int)),
            Err(e) => bin_dec_instrs(bytes@.skip(pos as int), n as int) is None && (
            e matches GremlinError::Cast(_)),
        },
    decreases bytes@.len() - pos, n as int, 1int,
{
    let mut out: Vec<Instruction> = Vec::new();
    let mut cur: usize = pos;
    let mut j: usize = 0;
    while j < n
        invariant
            pos <= cur <= bytes@.len(),
            j <= n,
            bin_dec_instrs(bytes@.skip(pos as int), n as int) == instrs_step(
                model_instrs(out@),
                cur - pos,
                bin_dec_instrs(bytes@.skip(cur as int), n - j),
            ),
        decreases n - j,
    {
        let r = read_str(bytes, cur);
        let (op, next1) = match r {
            Ok(p) => p,
            Err(e) => {
                assert(bin_dec_instrs(bytes@.skip(cur as int), n - j) is None);
                return Err(e);
            },
        };
        if bytes.len() - next1 < 4 {
            assert(bin_dec_instrs(bytes@.skip(cur as int), n - j) is None);
            return Err(cast_error("Missing bytes for argument count"));
        }
        let m32 = read_u32_be(bytes, next1);
        if m32 > MAX_LEN {
            assert(bin_dec_instrs(bytes@.skip(cur as int), n - j) is None);
            return Err(cast_error("Argument count did not fit into the signed prefix"));
        }
        let r = decode_elems(bytes, next1 + 4, m32 as usize);
        let (args, next2) = match r {
            Ok(p) => p,
            Err(e) => {
                proof {
                    lemma_skip_skip(bytes@, cur as int, next1 + 4 - cur as int);
                    assert(bin_dec_instrs(bytes@.skip(cur as int), n - j) is None);
                }
                return Err(e);
            },
        };
        let instruction = Instruction { operator: op, args };
        proof {
            lemma_skip_skip(bytes@, cur as int, next1 + 4 - cur as int);
            lemma_skip_skip(bytes@, cur as int, next2 - cur as int);
            assert(instruction.model() == (Instr {
                op: instruction.operator@,
                args: model_seq(instruction.args@),
            }));
            assert(bin_dec_instrs(bytes@.skip(cur as int), n - j) == instrs_step(
                seq![instruction.model()],
                next2 - cur,
                bin_dec_instrs(bytes@.skip(next2 as int), n - j - 1),
            ));
            lemma_instrs_step_assoc(
                model_instrs(out@),
                cur - pos,
                instruction.model(),
                next2 - cur,
                bin_dec_instrs(bytes@.skip(next2 as int), n - j - 1),
            );
            lemma_model_instrs_push(out@, instruction);
        }
        out.push(instruction);
        cur = next2;
        j = j + 1;
    }
    proof {
        assert(bin_dec_instrs(bytes@.skip(cur as int), 0int) == Some(
            (Seq::<Instr>::empty(), 0int),
        ));
        assert(model_instrs(out@) + Seq::<Instr>::empty() =~= model_instrs(out@));
    }
    Ok((out, cur))
}


/// Decodes a scalar payload whose type-code and present-flag have been read.
#[verifier::rlimit(100)]
fn decode_scalar(bytes: &[u8], pos: usize, code: u8) -> (r: GremlinResult<(GValue, usize)>)
    requires
        pos + 2 <= bytes@.len(),
        bytes@[pos as int] == code,
        bytes@[pos as int + 1] == FLAG_VALUE,
        code == TYPE_INTEGER || code == TYPE_LONG || code == TYPE_DATE || code == TYPE_DOUBLE
            || code == TYPE_FLOAT || code == TYPE_UUID || code == TYPE_STRING,
    ensures
        match r {
            Ok((v, next)) => pos < next <= bytes@.len() && bin_dec(bytes@.skip(pos as int))
                == Some((v.model(), next - pos as int)),
            Err(e) => bin_dec(bytes@.skip(pos as int)) is None && (
            e matches GremlinError::Cast(_)),
        },
{
    let ghost sv = bytes@.skip(pos as int);
    let total = bytes.len();
    assert(sv[0] == bytes@[pos as int] && sv[1] == bytes@[pos as int + 1]);
    if code == TYPE_INTEGER {
        if bytes.len() - pos < 6 {
            return Err(cast_error("Invalid bytes into i32"));
        }
        let x = read_u32_be(bytes, pos + 2) as i32;
        return Ok((GValue::Int32(x), pos + 6));
    }
    if code == TYPE_LONG {
        if bytes.len() - pos < 10 {
            return Err(cast_error("Invalid bytes into i64"));
        }
        let x = read_u64_be(bytes, pos + 2) as i64;
        return Ok((GValue::Int64(x), pos + 10));
    }
    if code == TYPE_DATE {
        if bytes.len() - pos < 10 {
            return Err(cast_error("Invalid bytes into a timestamp"));
        }
        let x = read_u64_be(bytes, pos + 2) as i64;
        return Ok((GValue::Date(Date { millis: x }), pos + 10));
    }
    if code == TYPE_DOUBLE {
        if bytes.len() - pos < 10 {
            return Err(cast_error("Invalid bytes into f64"));
        }
        let bits = read_u64_be(bytes, pos + 2);
        return Ok((GValue::Double(bits), pos + 10));
    }
    if code == TYPE_FLOAT {
        if bytes.len() - pos < 6 {
            return Err(cast_error("Invalid bytes into f32"));
        }
        let bits = read_u32_be(bytes, pos + 2);
        return Ok((GValue::Float(bits), pos + 6));
    }
    if code == TYPE_UUID {
        if bytes.len() - pos < 18 {
            return Err(cast_error("Invalid bytes into Uuid"));
        }
        let hi = read_u64_be(bytes, pos + 2);
        let lo = read_u64_be(bytes, pos + 10);
        return Ok((GValue::Uuid(Uuid { hi, lo }), pos + 18));
    }
    if code == TYPE_STRING {
        let r = read_str(bytes, pos + 2);
        match r {
            Ok((s, next)) => {
                proof {
                    lemma_skip_skip(bytes@, pos as int, 2);
                }
                return Ok((GValue::String(s), next));
            },
            Err(e) => {
                proof {
                    lemma_skip_skip(bytes@, pos as int, 2);
                }
                return Err(e);
            },
        }
    }
    // TYPE_STRING was handled above; this point is unreachable.
    proof {
        assert(false);
    }
    Err(cast_error("unreachable"))
}

/// Decodes one fully-qualified value starting at `pos`.
#[verifier::rlimit(100)]
fn decode_value(bytes: &[u8], pos: usize) -> (r: GremlinResult<(GValue, usize)>)
    requires
        pos <= bytes@.len(),
    ensures
        match r {
            Ok((v, next)) => pos < next <= bytes@.len() && bin_dec(bytes@.skip(pos as int))
                == Some((v.model(), next - pos as int)),
            Err(e) => bin_dec(bytes@.skip(pos as int)) is None && (
            e matches GremlinError::Cast(_)),
        },
    decreases bytes@.len() - pos, 0int, 0int,
{
    let ghost sv = bytes@.skip(pos as int);
    if bytes.len() - pos < 2 {
        return Err(cast_error("Invalid bytes no data code byte"));
    }
    let code = bytes[pos];
    let flag = bytes[pos + 1];
    assert(sv[0] == bytes@[pos as int] && sv[1] == bytes@[pos as int + 1]);
    if code == TYPE_UNSPECIFIED_NULL {
        if flag == FLAG_NULL {
            return Ok((GValue::Null, pos + 2));
        } else {
            return Err(cast_error("Malformed null value flag"));
        }
    }
    if !is_known_code(code) {
        return Err(cast_error("Unrecognized data code byte"));
    }
    if flag == FLAG_NULL {
        return Ok((GValue::Null, pos + 2));
    }
    if flag != FLAG_VALUE {
        return Err(cast_error("Unexpected byte for value flag"));
    }
    if code == TYPE_INTEGER || code == TYPE_LONG || code == TYPE_DATE || code == TYPE_DOUBLE
        || code == TYPE_FLOAT || code == TYPE_UUID || code == TYPE_STRING {
        return decode_scalar(bytes, pos, code);
    }
    if code == TYPE_LIST || code == TYPE_SET {
        if bytes.len() - pos < 6 {
            return Err(cast_error("Invalid bytes for collection length"));
        }
        let n32 = read_u32_be(bytes, pos + 2);
        if n32 > MAX_LEN {
            return Err(cast_error("Collection length did not fit into the signed prefix"));
        }
        let r = decode_elems(bytes, pos + 6, n32 as usize);
        match r {
            Ok((items, next)) => {
                proof {
                    lemma_skip_skip(bytes@, pos as int, 6);
                }
                if code == TYPE_LIST {
                    return Ok((GValue::List(items), next));
                } else {
                    return Ok((GValue::GSet(items), next));
                }
            },
            Err(e) => {
                proof {
                    lemma_skip_skip(bytes@, pos as int, 6);
                }
                return Err(e);
            },
        }
    }
    if code == TYPE_MAP {
        if bytes.len() - pos < 6 {
            return Err(cast_error("Invalid bytes for map length"));
        }
        let n32 = read_u32_be(bytes, pos + 2);
        if n32 > MAX_LEN {
            return Err(cast_error("Map length did not fit into the signed prefix"));
        }
        let r = decode_pairs(bytes, pos + 6, n32 as usize);
        match r {
            Ok((pairs, next)) => {
                proof {
                    lemma_skip_skip(bytes@, pos as int, 6);
                }
                return Ok((GValue::GMap(pairs), next));
            },
            Err(e) => {
                proof {
                    lemma_skip_skip(bytes@, pos as int, 6);
                }
                return Err(e);
            },
        }
    }
    if code == TYPE_BYTECODE {
        if bytes.len() - pos < 6 {
            return Err(cast_error("Invalid bytes for step count"));
        }
        let n32 = read_u32_be(bytes, pos + 2);
        if n32 > MAX_LEN {
            return Err(cast_error("Step count did not fit into the signed prefix"));
        }
        let r = decode_instructions(bytes, pos + 6, n32 as usize);
        let (steps, next1) = match r {
            Ok(p) => p,
            Err(e) => {
                proof {
                    lemma_skip_skip(bytes@, pos as int, 6);
                }
                return Err(e);
            },
        };
        proof {
            lemma_skip_skip(bytes@, pos as int, 6);
        }
        if bytes.len() - next1 < 4 {
            return Err(cast_error("Missing bytes for source count"));
        }
        let m32 = read_u32_be(bytes, next1);
        if m32 > MAX_LEN {
            return Err(cast_error("Source count did not fit into the signed prefix"));
        }
        let r = decode_instructions(bytes, next1 + 4, m32 as usize);
        match r {
            Ok((sources, next2)) => {
                let code_value = Bytecode { sources, steps };
                proof {
                    lemma_skip_skip(bytes@, pos as int, next1 + 4 - pos as int);
                    assert(code_value.model() == (Prog {
                        sources: model_instrs(code_value.sources@),
                        steps: model_instrs(code_value.steps@),
                    }));
                }
                return Ok((GValue::Bytecode(code_value), next2));
            },
            Err(e) => {
                proof {
                    lemma_skip_skip(bytes@, pos as int, next1 + 4 - pos as int);
                }
                return Err(e);
            },
        }
    }
    if code == TYPE_SCOPE {
        if bytes.len() - pos < 8 {
            return Err(cast_error("Invalid bytes for scope"));
        }
        if bytes[pos + 2] != TYPE_STRING || bytes[pos + 3] != FLAG_VALUE {
            return Err(cast_error("Malformed scope payload"));
        }
        let n32 = read_u32_be(bytes, pos + 4);
        if n32 > MAX_LEN {
            return Err(cast_error("Scope name length did not fit into the signed prefix"));
        }
        let n = n32 as usize;
        if bytes.len() - pos - 8 < n {
            return Err(cast_error("Missing bytes for scope name"));
        }
        let ghost bs = sv.subrange(8, 8 + n as int);
        assert(forall|i: int| 0 <= i < n ==> bs[i] == bytes@[pos + 8 + i]);
        if n == 6 && bytes[pos + 8] == 103 && bytes[pos + 9] == 108 && bytes[pos + 10] == 111
            && bytes[pos + 11] == 98 && bytes[pos + 12] == 97 && bytes[pos + 13] == 108 {
            assert(bs =~= crate::binary::scope_bytes(Scope::Global));
            return Ok((GValue::Scope(Scope::Global), pos + 8 + 6));
        }
        if n == 5 && bytes[pos + 8] == 108 && bytes[pos + 9] == 111 && bytes[pos + 10] == 99
            && bytes[pos + 11] == 97 && bytes[pos + 12] == 108 {
            assert(bs =~= crate::binary::scope_bytes(Scope::Local));
            return Ok((GValue::Scope(Scope::Local), pos + 8 + 5));
        }
        proof {
            if bs == crate::binary::scope_bytes(Scope::Global) {
                assert(bs.len() == 6);
                assert(bs[0] == 103 && bs[1] == 108 && bs[2] == 111 && bs[3] == 98 && bs[4] == 97
                    && bs[5] == 108);
                assert(false);
            }
            if bs == crate::binary::scope_bytes(Scope::Local) {
                assert(bs.len() == 5);
                assert(bs[0] == 108 && bs[1] == 111 && bs[2] == 99 && bs[3] == 97 && bs[4] == 108);
                assert(false);
            }
        }
        return Err(cast_error("Unrecognized scope name"));
    }
    // TYPE_TRAVERSER
    if bytes.len() - pos < 10 {
        return Err(cast_error("Invalid bytes for traverser bulk"));
    }
    let bulk = read_u64_be(bytes, pos + 2) as i64;
    let r = decode_value(bytes, pos + 10);
    match r {
        Ok((v, next)) => {
            proof {
                lemma_skip_skip(bytes@, pos as int, 10);
            }
            let t = Traverser { bulk, value: Box::new(v) };
            return Ok((GValue::Traverser(t), next));
        },
        Err(e) => {
            proof {
                lemma_skip_skip(bytes@, pos as int, 10);
            }
            return Err(e);
        },
    }
}

impl GValue {
    /// Reads one fully-qualified value from `bytes` starting at `pos`,
    /// returning it with the position just past its last byte.
    ///
    /// Succeeds exactly when the bytes from `pos` begin with a well-formed
    /// fully-qualified value; truncated or malformed input yields a `Cast`
    /// error.
    pub fn from_be_bytes(bytes: &[u8], pos: usize) -> (r: GremlinResult<(GValue, usize)>)
        requires
            pos <= bytes@.len(),
        ensures
            match r {
                Ok((v, next)) => pos < next <= bytes@.len() && bin_dec(bytes@.skip(pos as int))
                    == Some((v.model(), next - pos as int)),
                Err(e) => bin_dec(bytes@.skip(pos as int)) is None && (
                e matches GremlinError::Cast(_)),
            },
    {
        decode_value(bytes, pos)
    }
}


// ---------------------------------------------------------------------------
// Message envelopes.
// ---------------------------------------------------------------------------

/// A request envelope about to be written in the binary format.
#[derive(Debug, PartialEq)]
pub struct RequestMessage {
    pub request_id: Uuid,
    pub op: String,
    pub processor: String,
    pub args: Vec<(String, GValue)>,
}

/// A response envelope as read from one binary frame.
#[derive(Debug, PartialEq)]
pub struct ResponseMessage {
    pub request_id: Uuid,
    pub status_code: i16,
    pub status_message: String,
    pub status_attributes: Vec<(GKey, GValue)>,
    pub result_meta: Vec<(GKey, GValue)>,
    pub result_data: Option<GValue>,
}

impl ResponseMessage {
    pub open spec fn model(&self) -> ResponseModel {
        ResponseModel {
            request_id: self.request_id,
            status_code: self.status_code,
            status_message: self.status_message@,
            status_attributes: model_pairs(self.status_attributes@),
            result_meta: model_pairs(self.result_meta@),
            result_data: match self.result_data {
                Some(v) => Some(v.model()),
                None => None,
            },
        }
    }
}

/// Writes the count and the fully-qualified entries of a string-keyed
/// argument list.
fn encode_str_entries(args: &Vec<(String, GValue)>, buf: &mut Vec<u8>) -> (r: GremlinResult<()>)
    ensures
        match r {
            Ok(_) => args@.len() <= MAX_LEN && pairs_encodable(model_str_pairs(args@))
                && final(buf)@ == old(buf)@ + be4(args@.len() as u32) + bin_enc_pairs(
                model_str_pairs(args@),
            ),
            Err(e) => !(args@.len() <= MAX_LEN && pairs_encodable(model_str_pairs(args@))) && (
            e matches GremlinError::Cast(_)),
        },
{
    let n = args.len();
    if n > MAX_LEN as usize {
        proof {
            lemma_model_str_pairs(args@);
        }
        return Err(cast_error("Args exceeds the signed length prefix"));
    }
    push_be4(buf, n as u32);
    let ghost base = buf@;
    proof {
        lemma_model_str_pairs(args@);
    }
    let mut j: usize = 0;
    while j < n
        invariant
            j <= n,
            n == args@.len(),
            n <= MAX_LEN as usize,
            buf@ == base + bin_enc_pairs(model_str_pairs(args@.take(j as int))),
            pairs_encodable(model_str_pairs(args@.take(j as int))),
        decreases n - j,
    {
        let ghost key_model = Key::Str(args@[j as int].0@);
        let ghost val_model = args@[j as int].1.model();
        let ghost before = buf@;
        buf.push(TYPE_STRING);
        buf.push(FLAG_VALUE);
        let r = write_str_payload(buf, args[j].0.as_str());
        match r {
            Ok(_) => {
                assert(buf@ =~= before + enc_key(key_model));
            },
            Err(e) => {
                proof {
                    lemma_model_str_pairs(args@);
                    assert(!key_encodable(model_str_pairs(args@)[j as int].0));
                    assert(!pairs_encodable(model_str_pairs(args@)));
                }
                return Err(e);
            },
        }
        let r = encode_value(&args[j].1, buf);
        match r {
            Ok(_) => {
                proof {
                    let prefix = args@.take(j as int);
                    assert(args@.take(j as int + 1) =~= prefix.push(args@[j as int]));
                    assert(args@[j as int] == (args@[j as int].0, args@[j as int].1));
                    lemma_model_str_pairs_push(prefix, args@[j as int].0, args@[j as int].1);
                    lemma_bin_enc_pairs_push(model_str_pairs(prefix), key_model, val_model);
                    assert(buf@ =~= base + bin_enc_pairs(
                        model_str_pairs(args@.take(j as int + 1)),
                    ));
                    lemma_model_str_pairs(args@.take(j as int + 1));
                }
                j = j + 1;
            },
            Err(e) => {
                proof {
                    lemma_model_str_pairs(args@);
                    assert(!bin_encodable(args@[j as int].1.model()));
                    assert(model_str_pairs(args@)[j as int].1 == args@[j as int].1.model());
                    assert(!bin_encodable(model_str_pairs(args@)[j as int].1));
                    assert(!pairs_encodable(model_str_pairs(args@)));
                }
                return Err(e);
            },
        }
    }
    proof {
        assert(args@.take(n as int) =~= args@);
        assert(buf@ =~= old(buf)@ + be4(args@.len() as u32) + bin_enc_pairs(
            model_str_pairs(args@),
        ));
    }
    Ok(())
}

impl RequestMessage {
    /// Appends the binary wire form of this request envelope to `buf`:
    /// content-type header, version byte, raw request id, op, processor,
    /// and the argument entries.
    ///
    /// Succeeds exactly when the op and processor names and every argument
    /// fit the format. On failure the buffer is left unchanged.
    pub fn to_be_bytes(&self, buf: &mut Vec<u8>) -> (r: GremlinResult<()>)
        ensures
            r is Ok <==> req_encodable(self.op@, self.processor@, model_str_pairs(self.args@)),
            match r {
                Ok(_) => final(buf)@ == old(buf)@ + request_bytes(
                    self.request_id,
                    self.op@,
                    self.processor@,
                    model_str_pairs(self.args@),
                ),
                Err(e) => final(buf)@ == old(buf)@ && e matches GremlinError::Cast(_),
            },
    {
        let mut tmp: Vec<u8> = Vec::new();
        let header = "application/vnd.graphbinary-v1.0";
        let hb = header.as_bytes();
        tmp.push(#[verifier::truncate] (hb.len() as u8));
        push_bytes(&mut tmp, hb);
        tmp.push(VERSION_BYTE);
        push_be8(&mut tmp, self.request_id.hi);
        push_be8(&mut tmp, self.request_id.lo);
        assert(tmp@ =~= request_header() + seq![VERSION_BYTE] + be8(self.request_id.hi) + be8(
            self.request_id.lo,
        ));
        let r = write_str_payload(&mut tmp, self.op.as_str());
        match r {
            Ok(_) => {},
            Err(e) => {
                proof {
                    lemma_model_str_pairs(self.args@);
                }
                return Err(e);
            },
        }
        let r = write_str_payload(&mut tmp, self.processor.as_str());
        match r {
            Ok(_) => {},
            Err(e) => {
                proof {
                    lemma_model_str_pairs(self.args@);
                }
                return Err(e);
            },
        }
        let r = encode_str_entries(&self.args, &mut tmp);
        match r {
            Ok(_) => {
                proof {
                    lemma_model_str_pairs(self.args@);
                    assert(tmp@ =~= request_bytes(
                        self.request_id,
                        self.op@,
                        self.processor@,
                        model_str_pairs(self.args@),
                    ));
                }
                buf.append(&mut tmp);
                assert(buf@ =~= old(buf)@ + request_bytes(
                    self.request_id,
                    self.op@,
                    self.processor@,
                    model_str_pairs(self.args@),
                ));
                Ok(())
            },
            Err(e) => {
                proof {
                    lemma_model_str_pairs(self.args@);
                }
                Err(e)
            },
        }
    }
}

impl ResponseMessage {
    /// Reads one response envelope from a binary frame. Trailing bytes after
    /// the result value are ignored, as the framing already bounds the
    /// message.
    ///
    /// A missing or wrong version byte, a null request id, a status code
    /// outside 16 bits, or any malformed field yields a `Cast` error. A null
    /// status message reads as the empty string.
    #[verifier::rlimit(100)]
    pub fn from_be_bytes(bytes: &[u8]) -> (r: GremlinResult<ResponseMessage>)
        ensures
            match r {
                Ok(m) => dec_response(bytes@) == Some(m.model()),
                Err(e) => dec_response(bytes@) is None && e matches GremlinError::Cast(_),
            },
    {
        let ghost sv = bytes@;
        if bytes.len() < 18 {
            return Err(cast_error("Invalid bytes for a response envelope"));
        }
        if bytes[0] != VERSION_BYTE {
            return Err(cast_error("Invalid version byte"));
        }
        if bytes[1] != FLAG_VALUE {
            return Err(cast_error("Null request id"));
        }
        let hi = read_u64_be(bytes, 2);
        let lo = read_u64_be(bytes, 10);
        let ghost r1 = sv.skip(18);
        proof {
            assert(forall|i: int| 0 <= i < r1.len() ==> r1[i] == sv[18 + i]);
        }
        if bytes.len() - 18 < 4 {
            return Err(cast_error("Invalid bytes for status code"));
        }
        let code_u = read_u32_be(bytes, 18);
        let code_i = code_u as i32;
        if code_i < -32768 || code_i > 32767 {
            return Err(cast_error("Status code does not fit in 16 bits"));
        }
        let code = code_i as i16;
        let ghost r2 = r1.skip(4);
        proof {
            lemma_skip_skip(sv, 18, 4);
        }
        if bytes.len() - 22 < 1 {
            return Err(cast_error("Invalid bytes for status message"));
        }
        let mflag = bytes[22];
        let (message, cur): (String, usize) = if mflag == FLAG_NULL {
            (String::new(), 23)
        } else if mflag == FLAG_VALUE {
            proof {
                lemma_skip_skip(sv, 22, 1);
            }
            let r = read_str(bytes, 23);
            match r {
                Ok(p) => p,
                Err(e) => {
                    return Err(e);
                },
            }
        } else {
            return Err(cast_error("Unexpected byte for nullable status message"));
        };
        let ghost k1 = cur - 22;
        let ghost r3 = r2.skip(k1);
        proof {
            lemma_skip_skip(sv, 22, k1);
            assert(r3 == sv.skip(cur as int));
        }
        if bytes.len() - cur < 4 {
            return Err(cast_error("Invalid bytes for status attributes"));
        }
        let n_attr = read_u32_be(bytes, cur);
        if n_attr > MAX_LEN {
            return Err(cast_error("Attribute count did not fit into the signed prefix"));
        }
        proof {
            lemma_skip_skip(sv, cur as int, 4);
        }
        let r = decode_pairs(bytes, cur + 4, n_attr as usize);
        let (attrs, cur2) = match r {
            Ok(p) => p,
            Err(e) => {
                return Err(e);
            },
        };
        let ghost r4 = r3.skip(4 + (cur2 - (cur + 4)));
        proof {
            lemma_skip_skip(sv, cur as int, cur2 - cur as int);
            assert(r4 == sv.skip(cur2 as int));
        }
        if bytes.len() - cur2 < 4 {
            return Err(cast_error("Invalid bytes for result metadata"));
        }
        let n_meta = read_u32_be(bytes, cur2);
        if n_meta > MAX_LEN {
            return Err(cast_error("Metadata count did not fit into the signed prefix"));
        }
        proof {
            lemma_skip_skip(sv, cur2 as int, 4);
        }
        let r = decode_pairs(bytes, cur2 + 4, n_meta as usize);
        let (meta, cur3) = match r {
            Ok(p) => p,
            Err(e) => {
                return Err(e);
            },
        };
        let ghost r5 = r4.skip(4 + (cur3 - (cur2 + 4)));
        proof {
            lemma_skip_skip(sv, cur2 as int, cur3 - cur2 as int);
            assert(r5 == sv.skip(cur3 as int));
        }
        let r = decode_value(bytes, cur3);
        let (data, _end) = match r {
            Ok(p) => p,
            Err(e) => {
                return Err(e);
            },
        };
        let result_data = match data {
            GValue::Null => None,
            other => Some(other),
        };
        Ok(
            ResponseMessage {
                request_id: Uuid { hi, lo },
                status_code: code,
                status_message: message,
                status_attributes: attrs,
                result_meta: meta,
                result_data,
            },
        )
    }
}

} // verus!
