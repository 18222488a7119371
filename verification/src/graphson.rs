use vstd::prelude::*;

use crate::error::{GremlinError, GremlinResult};
use crate::structure::{
    lemma_model_instrs, lemma_model_pairs, lemma_model_seq, model_instrs, model_pairs, model_seq,
    Bytecode, Cardinality, Column, Direction, GKey, GValue, Instr, Instruction, Key, Merge, Order,
    Pop, Prog, Scope, T, Uuid, Value,
};
use crate::structure::{lemma_model_instrs_push, lemma_model_pairs_push, lemma_model_seq_push};
use crate::structure::{Date, P, TextP};
use vstd::string::StrSliceExecFns;
use vstd::string::StringExecFns;

verus! {

// ---------------------------------------------------------------------------
// The JSON value model the text codec writes into and reads from. Numbers
// keep their declared precision: an integral number, or the bit pattern of a
// float of either width. Rendering this model as JSON text, and parsing text
// into it, is the caller's concern; the codec's contracts are stated on the
// structure itself.
// ---------------------------------------------------------------------------

/// Spec-level mirror of `Json`.
pub enum JsonModel {
    Null,
    Bool(bool),
    Int(i64),
    /// A number carrying the IEEE-754 bits of a 32-bit float.
    F32(u32),
    /// A number carrying the IEEE-754 bits of a 64-bit float.
    F64(u64),
    Str(Seq<char>),
    Arr(Seq<JsonModel>),
    Obj(Seq<(Seq<char>, JsonModel)>),
}

/// A JSON value, with object entries kept in writing order.
#[derive(Debug, PartialEq)]
pub enum Json {
    Null,
    Bool(bool),
    Int(i64),
    F32(u32),
    F64(u64),
    Str(String),
    Arr(Vec<Json>),
    Obj(Vec<(String, Json)>),
}

impl Json {
    pub open spec fn model(&self) -> JsonModel
        decreases self,
    {
        match self {
            Json::Null => JsonModel::Null,
            Json::Bool(b) => JsonModel::Bool(*b),
            Json::Int(x) => JsonModel::Int(*x),
            Json::F32(bits) => JsonModel::F32(*bits),
            Json::F64(bits) => JsonModel::F64(*bits),
            Json::Str(s) => JsonModel::Str(s@),
            Json::Arr(items) => JsonModel::Arr(model_jseq(items@)),
            Json::Obj(entries) => JsonModel::Obj(model_jobj(entries@)),
        }
    }
}

pub open spec fn model_jseq(s: Seq<Json>) -> Seq<JsonModel>
    decreases s,
{
    if s.len() == 0 {
        Seq::empty()
    } else {
        seq![s[0].model()] + model_jseq(s.skip(1))
    }
}

pub open spec fn model_jobj(s: Seq<(String, Json)>) -> Seq<(Seq<char>, JsonModel)>
    decreases s,
{
    if s.len() == 0 {
        Seq::empty()
    } else {
        seq![(s[0].0@, s[0].1.model())] + model_jobj(s.skip(1))
    }
}

pub broadcast proof fn lemma_model_jseq(s: Seq<Json>)
    ensures
        (#[trigger] model_jseq(s)).len() == s.len(),
        forall|i: int| 0 <= i < s.len() ==> model_jseq(s)[i] == s[i].model(),
    decreases s,
{
    if s.len() > 0 {
        lemma_model_jseq(s.skip(1));
    }
}

pub broadcast proof fn lemma_model_jobj(s: Seq<(String, Json)>)
    ensures
        (#[trigger] model_jobj(s)).len() == s.len(),
        forall|i: int| 0 <= i < s.len() ==> model_jobj(s)[i] == (s[i].0@, s[i].1.model()),
    decreases s,
{
    if s.len() > 0 {
        lemma_model_jobj(s.skip(1));
    }
}

pub proof fn lemma_model_jseq_push(s: Seq<Json>, x: Json)
    ensures
        model_jseq(s.push(x)) == model_jseq(s).push(x.model()),
{
    lemma_model_jseq(s.push(x));
    lemma_model_jseq(s);
    assert(model_jseq(s.push(x)) =~= model_jseq(s).push(x.model()));
}

pub proof fn lemma_model_jobj_push(s: Seq<(String, Json)>, k: String, x: Json)
    ensures
        model_jobj(s.push((k, x))) == model_jobj(s).push((k@, x.model())),
{
    lemma_model_jobj(s.push((k, x)));
    lemma_model_jobj(s);
    assert(model_jobj(s.push((k, x))) =~= model_jobj(s).push((k@, x.model())));
}

// ---------------------------------------------------------------------------
// The hyphenated lowercase hexadecimal form of a UUID.
// ---------------------------------------------------------------------------

/// The lowercase hexadecimal digit for a value below sixteen.
pub open spec fn hexd(n: u64) -> char {
    if n == 0 {
        '0'
    } else if n == 1 {
        '1'
    } else if n == 2 {
        '2'
    } else if n == 3 {
        '3'
    } else if n == 4 {
        '4'
    } else if n == 5 {
        '5'
    } else if n == 6 {
        '6'
    } else if n == 7 {
        '7'
    } else if n == 8 {
        '8'
    } else if n == 9 {
        '9'
    } else if n == 10 {
        'a'
    } else if n == 11 {
        'b'
    } else if n == 12 {
        'c'
    } else if n == 13 {
        'd'
    } else if n == 14 {
        'e'
    } else {
        'f'
    }
}

/// The numeric value of a hexadecimal digit, either case.
pub open spec fn hex_val(c: char) -> Option<u64> {
    if c == '0' {
        Some(0u64)
    } else if c == '1' {
        Some(1u64)
    } else if c == '2' {
        Some(2u64)
    } else if c == '3' {
        Some(3u64)
    } else if c == '4' {
        Some(4u64)
    } else if c == '5' {
        Some(5u64)
    } else if c == '6' {
        Some(6u64)
    } else if c == '7' {
        Some(7u64)
    } else if c == '8' {
        Some(8u64)
    } else if c == '9' {
        Some(9u64)
    } else if c == 'a' || c == 'A' {
        Some(10u64)
    } else if c == 'b' || c == 'B' {
        Some(11u64)
    } else if c == 'c' || c == 'C' {
        Some(12u64)
    } else if c == 'd' || c == 'D' {
        Some(13u64)
    } else if c == 'e' || c == 'E' {
        Some(14u64)
    } else if c == 'f' || c == 'F' {
        Some(15u64)
    } else {
        None
    }
}

/// The sixteen hexadecimal digits of a 64-bit value, most significant first.
pub open spec fn hex16(x: u64) -> Seq<char> {
    seq![
        hexd((x >> 60) & 15),
        hexd((x >> 56) & 15),
        hexd((x >> 52) & 15),
        hexd((x >> 48) & 15),
        hexd((x >> 44) & 15),
        hexd((x >> 40) & 15),
        hexd((x >> 36) & 15),
        hexd((x >> 32) & 15),
        hexd((x >> 28) & 15),
        hexd((x >> 24) & 15),
        hexd((x >> 20) & 15),
        hexd((x >> 16) & 15),
        hexd((x >> 12) & 15),
        hexd((x >> 8) & 15),
        hexd((x >> 4) & 15),
        hexd(x & 15),
    ]
}

/// The 8-4-4-4-12 hyphenated text form of a UUID.
pub open spec fn uuid_chars(u: Uuid) -> Seq<char> {
    hex16(u.hi).subrange(0, 8) + seq!['-'] + hex16(u.hi).subrange(8, 12) + seq!['-'] + hex16(
        u.hi,
    ).subrange(12, 16) + seq!['-'] + hex16(u.lo).subrange(0, 4) + seq!['-'] + hex16(u.lo).subrange(
        4,
        16,
    )
}

/// The UUID a 36-character hyphenated hexadecimal text stands for, if it is
/// well-formed.
pub open spec fn uuid_of_chars(cs: Seq<char>) -> Option<Uuid> {
    if cs.len() != 36 {
        None
    } else if cs[8] != '-' || cs[13] != '-' || cs[18] != '-' || cs[23] != '-' {
        None
    } else if exists|i: int|
        0 <= i < 36 && i != 8 && i != 13 && i != 18 && i != 23 && hex_val(cs[i]) is None {
        None
    } else {
        let hi = (hex_digit_at(cs, 0) << 60) | (hex_digit_at(cs, 1) << 56) | (hex_digit_at(cs, 2)
            << 52) | (hex_digit_at(cs, 3) << 48) | (hex_digit_at(cs, 4) << 44) | (hex_digit_at(
            cs,
            5,
        ) << 40) | (hex_digit_at(cs, 6) << 36) | (hex_digit_at(cs, 7) << 32) | (hex_digit_at(
            cs,
            9,
        ) << 28) | (hex_digit_at(cs, 10) << 24) | (hex_digit_at(cs, 11) << 20) | (hex_digit_at(
            cs,
            12,
        ) << 16) | (hex_digit_at(cs, 14) << 12) | (hex_digit_at(cs, 15) << 8) | (hex_digit_at(
            cs,
            16,
        ) << 4) | hex_digit_at(cs, 17);
        let lo = (hex_digit_at(cs, 19) << 60) | (hex_digit_at(cs, 20) << 56) | (hex_digit_at(
            cs,
            21,
        ) << 52) | (hex_digit_at(cs, 22) << 48) | (hex_digit_at(cs, 24) << 44) | (hex_digit_at(
            cs,
            25,
        ) << 40) | (hex_digit_at(cs, 26) << 36) | (hex_digit_at(cs, 27) << 32) | (hex_digit_at(
            cs,
            28,
        ) << 28) | (hex_digit_at(cs, 29) << 24) | (hex_digit_at(cs, 30) << 20) | (hex_digit_at(
            cs,
            31,
        ) << 16) | (hex_digit_at(cs, 32) << 12) | (hex_digit_at(cs, 33) << 8) | (hex_digit_at(
            cs,
            34,
        ) << 4) | hex_digit_at(cs, 35);
        Some(Uuid { hi, lo })
    }
}

/// The digit value at one position, where the position is known to hold one.
pub open spec fn hex_digit_at(cs: Seq<char>, i: int) -> u64 {
    hex_val(cs[i]).unwrap_or(0)
}

/// Reading back a written digit yields its value.
pub proof fn lemma_hexd_val(n: u64)
    requires
        n < 16,
    ensures
        hex_val(hexd(n)) == Some(n),
{
}

/// Reassembling a 64-bit value from its sixteen nibbles yields it back.
pub proof fn lemma_nibbles_roundtrip(x: u64)
    ensures
        (((x >> 60) & 15) << 60) | (((x >> 56) & 15) << 56) | (((x >> 52) & 15) << 52) | (((x
            >> 48) & 15) << 48) | (((x >> 44) & 15) << 44) | (((x >> 40) & 15) << 40) | (((x >> 36)
            & 15) << 36) | (((x >> 32) & 15) << 32) | (((x >> 28) & 15) << 28) | (((x >> 24) & 15)
            << 24) | (((x >> 20) & 15) << 20) | (((x >> 16) & 15) << 16) | (((x >> 12) & 15)
            << 12) | (((x >> 8) & 15) << 8) | (((x >> 4) & 15) << 4) | (x & 15) == x,
{
    assert((((x >> 60) & 15) << 60) | (((x >> 56) & 15) << 56) | (((x >> 52) & 15) << 52) | (((x
        >> 48) & 15) << 48) | (((x >> 44) & 15) << 44) | (((x >> 40) & 15) << 40) | (((x >> 36)
        & 15) << 36) | (((x >> 32) & 15) << 32) | (((x >> 28) & 15) << 28) | (((x >> 24) & 15)
        << 24) | (((x >> 20) & 15) << 20) | (((x >> 16) & 15) << 16) | (((x >> 12) & 15) << 12) | (
    ((x >> 8) & 15) << 8) | (((x >> 4) & 15) << 4) | (x & 15) == x) by (bit_vector);
}

/// Appends one lowercase hexadecimal digit.
fn push_hex(s: &mut String, nib: u64)
    ensures
        final(s)@ == old(s)@ + seq![hexd(nib)],
{
    if nib == 0 {
        s.append("0");
        proof {
            reveal_strlit("0");
            assert(old(s)@ + ("0")@ =~= old(s)@ + seq![hexd(nib)]);
        }
    } else if nib == 1 {
        s.append("1");
        proof {
            reveal_strlit("1");
            assert(old(s)@ + ("1")@ =~= old(s)@ + seq![hexd(nib)]);
        }
    } else if nib == 2 {
        s.append("2");
        proof {
            reveal_strlit("2");
            assert(old(s)@ + ("2")@ =~= old(s)@ + seq![hexd(nib)]);
        }
    } else if nib == 3 {
        s.append("3");
        proof {
            reveal_strlit("3");
            assert(old(s)@ + ("3")@ =~= old(s)@ + seq![hexd(nib)]);
        }
    } else if nib == 4 {
        s.append("4");
        proof {
            reveal_strlit("4");
            assert(old(s)@ + ("4")@ =~= old(s)@ + seq![hexd(nib)]);
        }
    } else if nib == 5 {
        s.append("5");
        proof {
            reveal_strlit("5");
            assert(old(s)@ + ("5")@ =~= old(s)@ + seq![hexd(nib)]);
        }
    } else if nib == 6 {
        s.append("6");
        proof {
            reveal_strlit("6");
            assert(old(s)@ + ("6")@ =~= old(s)@ + seq![hexd(nib)]);
        }
    } else if nib == 7 {
        s.append("7");
        proof {
            reveal_strlit("7");
            assert(old(s)@ + ("7")@ =~= old(s)@ + seq![hexd(nib)]);
        }
    } else if nib == 8 {
        s.append("8");
        proof {
            reveal_strlit("8");
            assert(old(s)@ + ("8")@ =~= old(s)@ + seq![hexd(nib)]);
        }
    } else if nib == 9 {
        s.append("9");
        proof {
            reveal_strlit("9");
            assert(old(s)@ + ("9")@ =~= old(s)@ + seq![hexd(nib)]);
        }
    } else if nib == 10 {
        s.append("a");
        proof {
            reveal_strlit("a");
            assert(old(s)@ + ("a")@ =~= old(s)@ + seq![hexd(nib)]);
        }
    } else if nib == 11 {
        s.append("b");
        proof {
            reveal_strlit("b");
            assert(old(s)@ + ("b")@ =~= old(s)@ + seq![hexd(nib)]);
        }
    } else if nib == 12 {
        s.append("c");
        proof {
            reveal_strlit("c");
            assert(old(s)@ + ("c")@ =~= old(s)@ + seq![hexd(nib)]);
        }
    } else if nib == 13 {
        s.append("d");
        proof {
            reveal_strlit("d");
            assert(old(s)@ + ("d")@ =~= old(s)@ + seq![hexd(nib)]);
        }
    } else if nib == 14 {
        s.append("e");
        proof {
            reveal_strlit("e");
            assert(old(s)@ + ("e")@ =~= old(s)@ + seq![hexd(nib)]);
        }
    } else {
        s.append("f");
        proof {
            reveal_strlit("f");
            assert(old(s)@ + ("f")@ =~= old(s)@ + seq![hexd(nib)]);
        }
    }
}

impl Uuid {
    /// The hyphenated lowercase hexadecimal text of this UUID.
    #[verifier::rlimit(100)]
    pub fn to_text(&self) -> (r: String)
        ensures
            r@ == uuid_chars(*self),
    {
        let hi = self.hi;
        let lo = self.lo;
        let mut out = String::new();
        proof {
            reveal_strlit("-");
        }
        push_hex(&mut out, (hi >> 60) & 15);
        push_hex(&mut out, (hi >> 56) & 15);
        push_hex(&mut out, (hi >> 52) & 15);
        push_hex(&mut out, (hi >> 48) & 15);
        push_hex(&mut out, (hi >> 44) & 15);
        push_hex(&mut out, (hi >> 40) & 15);
        push_hex(&mut out, (hi >> 36) & 15);
        push_hex(&mut out, (hi >> 32) & 15);
        assert(out@ =~= hex16(hi).subrange(0, 8));
        out.append("-");
        push_hex(&mut out, (hi >> 28) & 15);
        push_hex(&mut out, (hi >> 24) & 15);
        push_hex(&mut out, (hi >> 20) & 15);
        push_hex(&mut out, (hi >> 16) & 15);
        assert(out@ =~= hex16(hi).subrange(0, 8) + seq!['-'] + hex16(hi).subrange(8, 12));
        out.append("-");
        push_hex(&mut out, (hi >> 12) & 15);
        push_hex(&mut out, (hi >> 8) & 15);
        push_hex(&mut out, (hi >> 4) & 15);
        push_hex(&mut out, hi & 15);
        assert(out@ =~= hex16(hi).subrange(0, 8) + seq!['-'] + hex16(hi).subrange(8, 12)
            + seq!['-'] + hex16(hi).subrange(12, 16));
        out.append("-");
        push_hex(&mut out, (lo >> 60) & 15);
        push_hex(&mut out, (lo >> 56) & 15);
        push_hex(&mut out, (lo >> 52) & 15);
        push_hex(&mut out, (lo >> 48) & 15);
        assert(out@ =~= hex16(hi).subrange(0, 8) + seq!['-'] + hex16(hi).subrange(8, 12)
            + seq!['-'] + hex16(hi).subrange(12, 16) + seq!['-'] + hex16(lo).subrange(0, 4));
        out.append("-");
        push_hex(&mut out, (lo >> 44) & 15);
        push_hex(&mut out, (lo >> 40) & 15);
        push_hex(&mut out, (lo >> 36) & 15);
        push_hex(&mut out, (lo >> 32) & 15);
        push_hex(&mut out, (lo >> 28) & 15);
        push_hex(&mut out, (lo >> 24) & 15);
        push_hex(&mut out, (lo >> 20) & 15);
        push_hex(&mut out, (lo >> 16) & 15);
        push_hex(&mut out, (lo >> 12) & 15);
        push_hex(&mut out, (lo >> 8) & 15);
        push_hex(&mut out, (lo >> 4) & 15);
        push_hex(&mut out, lo & 15);
        assert(out@ =~= uuid_chars(*self));
        out
    }
}


// ---------------------------------------------------------------------------
// The tagged-object convention shared by both text format versions.
// ---------------------------------------------------------------------------

/// A tagged value: `{"@type": tag, "@value": payload}`.
pub open spec fn tagged(tag: Seq<char>, payload: JsonModel) -> JsonModel {
    JsonModel::Obj(
        seq![
            ("@type"@, JsonModel::Str(tag)),
            ("@value"@, payload),
        ],
    )
}

pub open spec fn scope_text(sc: Scope) -> Seq<char> {
    match sc {
        Scope::Global => "global"@,
        Scope::Local => "local"@,
    }
}

pub open spec fn order_text(o: Order) -> Seq<char> {
    match o {
        Order::Asc => "asc"@,
        Order::Desc => "desc"@,
        Order::Shuffle => "shuffle"@,
    }
}

pub open spec fn t_text(t: T) -> Seq<char> {
    match t {
        T::Id => "id"@,
        T::Key => "key"@,
        T::Label => "label"@,
        T::Value => "value"@,
    }
}

pub open spec fn cardinality_text(c: Cardinality) -> Seq<char> {
    match c {
        Cardinality::List => "list"@,
        Cardinality::Single => "single"@,
        Cardinality::GSet => "set"@,
    }
}

pub open spec fn merge_text(m: Merge) -> Seq<char> {
    match m {
        Merge::OnCreate => "onCreate"@,
        Merge::OnMatch => "onMatch"@,
        Merge::OutV => "outV"@,
        Merge::InV => "inV"@,
    }
}

/// Both outgoing aliases of a direction write the plain wire name.
pub open spec fn direction_text(d: Direction) -> Seq<char> {
    match d {
        Direction::Out => "OUT"@,
        Direction::From => "OUT"@,
        Direction::In => "IN"@,
        Direction::To => "IN"@,
    }
}

pub open spec fn column_text(c: Column) -> Seq<char> {
    match c {
        Column::Keys => "keys"@,
        Column::Values => "values"@,
    }
}

pub open spec fn pop_text(pp: Pop) -> Seq<char> {
    match pp {
        Pop::All => "all"@,
        Pop::First => "first"@,
        Pop::Last => "last"@,
        Pop::Mixed => "mixed"@,
    }
}

// ---------------------------------------------------------------------------
// Which values each text-format version carries.
// ---------------------------------------------------------------------------

pub open spec fn text_supported(v: Value, v3: bool) -> bool
    decreases v,
{
    match v {
        Value::Null => true,
        Value::Bool(_) => true,
        Value::Int32(_) => true,
        Value::Int64(_) => true,
        Value::Float(_) => true,
        Value::Double(_) => true,
        Value::Str(_) => true,
        Value::Uuid(_) => true,
        Value::Date(_) => true,
        Value::List(items) => text_seq_supported(items, v3),
        Value::GMap(pairs) => text_pairs_supported(pairs, v3),
        Value::Bytecode(p) => text_instrs_supported(p.sources, v3) && text_instrs_supported(
            p.steps,
            v3,
        ),
        Value::Scope(_) => true,
        Value::Order(_) => true,
        Value::T(_) => true,
        Value::Cardinality(_) => true,
        Value::Merge(_) => true,
        Value::Direction(_) => true,
        Value::Column(_) => true,
        Value::Pop(_) => true,
        Value::P(_, val) => text_supported(*val, v3),
        Value::TextP(_, val) => text_supported(*val, v3),
        _ => false,
    }
}

pub open spec fn text_seq_supported(items: Seq<Value>, v3: bool) -> bool
    decreases items,
{
    forall|i: int| #![trigger items[i]] 0 <= i < items.len() ==> text_supported(items[i], v3)
}

/// Version two writes maps as JSON objects, so a key must render as a bare
/// string; version three carries any key.
pub open spec fn text_key_supported(k: Key, v3: bool) -> bool {
    v3 || (k is Str || k is Token)
}

pub open spec fn text_pairs_supported(pairs: Seq<(Key, Value)>, v3: bool) -> bool
    decreases pairs,
{
    forall|i: int|
        #![trigger pairs[i]]
        0 <= i < pairs.len() ==> text_key_supported(pairs[i].0, v3) && text_supported(
            pairs[i].1,
            v3,
        )
}

pub open spec fn text_instr_supported(i: Instr, v3: bool) -> bool
    decreases i,
{
    text_seq_supported(i.args, v3)
}

pub open spec fn text_instrs_supported(instrs: Seq<Instr>, v3: bool) -> bool
    decreases instrs,
{
    forall|i: int|
        #![trigger instrs[i]]
        0 <= i < instrs.len() ==> text_instr_supported(instrs[i], v3)
}

// ---------------------------------------------------------------------------
// Encoding into the JSON model.
// ---------------------------------------------------------------------------

/// A map key written as a JSON value: strings and tokens as bare strings,
/// the direction and token enumerations in their tagged forms.
pub open spec fn gson_key(k: Key) -> JsonModel {
    match k {
        Key::Str(cs) => JsonModel::Str(cs),
        Key::Token(cs) => JsonModel::Str(cs),
        Key::Direction(d) => tagged("g:Direction"@, JsonModel::Str(direction_text(d))),
        Key::T(t) => tagged("g:T"@, JsonModel::Str(t_text(t))),
    }
}

/// The bare string a version-two map key writes.
pub open spec fn key_text(k: Key) -> Seq<char> {
    match k {
        Key::Str(cs) => cs,
        Key::Token(cs) => cs,
        _ => Seq::empty(),
    }
}

/// The tagged JSON form of a value, for one text-format version.
pub open spec fn gson(v: Value, v3: bool) -> JsonModel
    decreases v,
{
    match v {
        Value::Null => JsonModel::Null,
        Value::Bool(b) => JsonModel::Bool(b),
        Value::Int32(x) => tagged("g:Int32"@, JsonModel::Int(x as i64)),
        Value::Int64(x) => tagged("g:Int64"@, JsonModel::Int(x)),
        Value::Float(bits) => tagged("g:Float"@, JsonModel::F32(bits)),
        Value::Double(bits) => tagged("g:Double"@, JsonModel::F64(bits)),
        Value::Str(cs) => JsonModel::Str(cs),
        Value::Uuid(u) => tagged("g:UUID"@, JsonModel::Str(uuid_chars(u))),
        Value::Date(ms) => tagged("g:Date"@, JsonModel::Int(ms)),
        Value::List(items) => if v3 {
            tagged("g:List"@, JsonModel::Arr(gson_seq(items, v3)))
        } else {
            JsonModel::Arr(gson_seq(items, v3))
        },
        Value::GMap(pairs) => if v3 {
            tagged("g:Map"@, JsonModel::Arr(gson_flat(pairs, v3)))
        } else {
            JsonModel::Obj(gson_obj(pairs, v3))
        },
        Value::Bytecode(p) => tagged(
            "g:Bytecode"@,
            JsonModel::Obj(
                seq![
                    ("step"@, JsonModel::Arr(gson_instrs(p.steps, v3))),
                    ("source"@, JsonModel::Arr(gson_instrs(p.sources, v3))),
                ],
            ),
        ),
        Value::Scope(sc) => tagged("g:Scope"@, JsonModel::Str(scope_text(sc))),
        Value::Order(o) => tagged("g:Order"@, JsonModel::Str(order_text(o))),
        Value::T(t) => tagged("g:T"@, JsonModel::Str(t_text(t))),
        Value::Cardinality(c) => tagged("g:Cardinality"@, JsonModel::Str(cardinality_text(c))),
        Value::Merge(m) => tagged("g:Merge"@, JsonModel::Str(merge_text(m))),
        Value::Direction(d) => tagged("g:Direction"@, JsonModel::Str(direction_text(d))),
        Value::Column(c) => tagged("g:Column"@, JsonModel::Str(column_text(c))),
        Value::Pop(pp) => tagged("g:Pop"@, JsonModel::Str(pop_text(pp))),
        Value::P(op, val) => tagged(
            "g:P"@,
            JsonModel::Obj(
                seq![
                    ("predicate"@, JsonModel::Str(op)),
                    ("value"@, gson(*val, v3)),
                ],
            ),
        ),
        Value::TextP(op, val) => tagged(
            "g:TextP"@,
            JsonModel::Obj(
                seq![
                    ("predicate"@, JsonModel::Str(op)),
                    ("value"@, gson(*val, v3)),
                ],
            ),
        ),
        _ => JsonModel::Null,
    }
}

pub open spec fn gson_seq(items: Seq<Value>, v3: bool) -> Seq<JsonModel>
    decreases items,
{
    if items.len() == 0 {
        Seq::empty()
    } else {
        seq![gson(items[0], v3)] + gson_seq(items.skip(1), v3)
    }
}

/// Version-two map entries: bare string key, encoded value.
pub open spec fn gson_obj(pairs: Seq<(Key, Value)>, v3: bool) -> Seq<(Seq<char>, JsonModel)>
    decreases pairs,
{
    if pairs.len() == 0 {
        Seq::empty()
    } else {
        seq![(key_text(pairs[0].0), gson(pairs[0].1, v3))] + gson_obj(pairs.skip(1), v3)
    }
}

/// Version-three map entries: flattened alternating keys and values.
pub open spec fn gson_flat(pairs: Seq<(Key, Value)>, v3: bool) -> Seq<JsonModel>
    decreases pairs,
{
    if pairs.len() == 0 {
        Seq::empty()
    } else {
        seq![gson_key(pairs[0].0), gson(pairs[0].1, v3)] + gson_flat(pairs.skip(1), v3)
    }
}

/// One instruction: an array of its operator name and encoded arguments.
pub open spec fn gson_instr(i: Instr, v3: bool) -> JsonModel
    decreases i,
{
    JsonModel::Arr(seq![JsonModel::Str(i.op)] + gson_seq(i.args, v3))
}

pub open spec fn gson_instrs(instrs: Seq<Instr>, v3: bool) -> Seq<JsonModel>
    decreases instrs,
{
    if instrs.len() == 0 {
        Seq::empty()
    } else {
        seq![gson_instr(instrs[0], v3)] + gson_instrs(instrs.skip(1), v3)
    }
}

// ---------------------------------------------------------------------------
// Decoding from the JSON model.
// ---------------------------------------------------------------------------

/// Whether an object is shaped like a tagged value.
pub open spec fn is_tag_shape(entries: Seq<(Seq<char>, JsonModel)>) -> bool {
    &&& entries.len() == 2
    &&& entries[0].0 == "@type"@
    &&& entries[1].0 == "@value"@
    &&& entries[0].1 is Str
}

/// Which decoded values may serve as map keys in the text formats.
pub open spec fn text_key_of_value(v: Value) -> Option<Key> {
    match v {
        Value::Str(cs) => Some(Key::Str(cs)),
        Value::Direction(d) => Some(Key::Direction(d)),
        Value::T(t) => Some(Key::T(t)),
        _ => None,
    }
}

pub open spec fn gson_dec(j: JsonModel, v3: bool) -> Option<Value>
    decreases j, 0int,
{
    match j {
        JsonModel::Null => Some(Value::Null),
        JsonModel::Bool(b) => Some(Value::Bool(b)),
        JsonModel::Str(cs) => Some(Value::Str(cs)),
        JsonModel::Arr(items) => if v3 {
            None
        } else {
            match gson_dec_seq(items, v3) {
                Some(vs) => Some(Value::List(vs)),
                None => None,
            }
        },
        JsonModel::Obj(entries) => if is_tag_shape(entries) {
            gson_dec_tagged(entries[0].1->Str_0, entries[1].1, v3)
        } else if !v3 {
            match gson_dec_obj(entries, v3) {
                Some(ps) => Some(Value::GMap(ps)),
                None => None,
            }
        } else {
            None
        },
        _ => None,
    }
}

pub open spec fn gson_dec_tagged(tag: Seq<char>, payload: JsonModel, v3: bool) -> Option<Value>
    decreases payload, 1int,
{
    if tag == "g:Int32"@ {
        match payload {
            JsonModel::Int(x) => if -2147483648 <= x <= 2147483647 {
                Some(Value::Int32(x as i32))
            } else {
                None
            },
            _ => None,
        }
    } else if tag == "g:Int64"@ {
        match payload {
            JsonModel::Int(x) => Some(Value::Int64(x)),
            _ => None,
        }
    } else if tag == "g:Float"@ {
        match payload {
            JsonModel::F32(bits) => Some(Value::Float(bits)),
            _ => None,
        }
    } else if tag == "g:Double"@ {
        match payload {
            JsonModel::F64(bits) => Some(Value::Double(bits)),
            _ => None,
        }
    } else if tag == "g:UUID"@ {
        match payload {
            JsonModel::Str(cs) => match uuid_of_chars(cs) {
                Some(u) => Some(Value::Uuid(u)),
                None => None,
            },
            _ => None,
        }
    } else if tag == "g:Date"@ {
        match payload {
            JsonModel::Int(ms) => Some(Value::Date(ms)),
            _ => None,
        }
    } else if tag == "g:List"@ {
        if !v3 {
            None
        } else {
            match payload {
                JsonModel::Arr(items) => match gson_dec_seq(items, v3) {
                    Some(vs) => Some(Value::List(vs)),
                    None => None,
                },
                _ => None,
            }
        }
    } else if tag == "g:Map"@ {
        if !v3 {
            None
        } else {
            match payload {
                JsonModel::Arr(items) => match gson_dec_flat(items, v3) {
                    Some(ps) => Some(Value::GMap(ps)),
                    None => None,
                },
                _ => None,
            }
        }
    } else if tag == "g:Bytecode"@ {
        match payload {
            JsonModel::Obj(entries) => if entries.len() == 2 && entries[0].0 == "step"@
                && entries[1].0 == "source"@ && entries[0].1 is Arr && entries[1].1 is Arr {
                match gson_dec_instrs(entries[0].1->Arr_0, v3) {
                    Some(steps) => match gson_dec_instrs(entries[1].1->Arr_0, v3) {
                        Some(sources) => Some(Value::Bytecode(Prog { sources, steps })),
                        None => None,
                    },
                    None => None,
                }
            } else {
                None
            },
            _ => None,
        }
    } else if tag == "g:Scope"@ {
        match payload {
            JsonModel::Str(cs) => if cs == "global"@ {
                Some(Value::Scope(Scope::Global))
            } else if cs == "local"@ {
                Some(Value::Scope(Scope::Local))
            } else {
                None
            },
            _ => None,
        }
    } else if tag == "g:Order"@ {
        match payload {
            JsonModel::Str(cs) => if cs == "asc"@ {
                Some(Value::Order(Order::Asc))
            } else if cs == "desc"@ {
                Some(Value::Order(Order::Desc))
            } else if cs == "shuffle"@ {
                Some(Value::Order(Order::Shuffle))
            } else {
                None
            },
            _ => None,
        }
    } else if tag == "g:T"@ {
        match payload {
            JsonModel::Str(cs) => if cs == "id"@ {
                Some(Value::T(T::Id))
            } else if cs == "key"@ {
                Some(Value::T(T::Key))
            } else if cs == "label"@ {
                Some(Value::T(T::Label))
            } else if cs == "value"@ {
                Some(Value::T(T::Value))
            } else {
                None
            },
            _ => None,
        }
    } else if tag == "g:Cardinality"@ {
        match payload {
            JsonModel::Str(cs) => if cs == "list"@ {
                Some(Value::Cardinality(Cardinality::List))
            } else if cs == "single"@ {
                Some(Value::Cardinality(Cardinality::Single))
            } else if cs == "set"@ {
                Some(Value::Cardinality(Cardinality::GSet))
            } else {
                None
            },
            _ => None,
        }
    } else if tag == "g:Merge"@ {
        match payload {
            JsonModel::Str(cs) => if cs == "onCreate"@ {
                Some(Value::Merge(Merge::OnCreate))
            } else if cs == "onMatch"@ {
                Some(Value::Merge(Merge::OnMatch))
            } else if cs == "outV"@ {
                Some(Value::Merge(Merge::OutV))
            } else if cs == "inV"@ {
                Some(Value::Merge(Merge::InV))
            } else {
                None
            },
            _ => None,
        }
    } else if tag == "g:Direction"@ {
        match payload {
            JsonModel::Str(cs) => if cs == "OUT"@ {
                Some(Value::Direction(Direction::Out))
            } else if cs == "IN"@ {
                Some(Value::Direction(Direction::In))
            } else {
                None
            },
            _ => None,
        }
    } else if tag == "g:Column"@ {
        match payload {
            JsonModel::Str(cs) => if cs == "keys"@ {
                Some(Value::Column(Column::Keys))
            } else if cs == "values"@ {
                Some(Value::Column(Column::Values))
            } else {
                None
            },
            _ => None,
        }
    } else if tag == "g:Pop"@ {
        match payload {
            JsonModel::Str(cs) => if cs == "all"@ {
                Some(Value::Pop(Pop::All))
            } else if cs == "first"@ {
                Some(Value::Pop(Pop::First))
            } else if cs == "last"@ {
                Some(Value::Pop(Pop::Last))
            } else if cs == "mixed"@ {
                Some(Value::Pop(Pop::Mixed))
            } else {
                None
            },
            _ => None,
        }
    } else if tag == "g:P"@ || tag == "g:TextP"@ {
        match payload {
            JsonModel::Obj(entries) => if entries.len() == 2 && entries[0].0 == "predicate"@
                && entries[1].0 == "value"@ && entries[0].1 is Str {
                match gson_dec(entries[1].1, v3) {
                    Some(v) => if tag == "g:P"@ {
                        Some(Value::P(entries[0].1->Str_0, Box::new(v)))
                    } else {
                        Some(Value::TextP(entries[0].1->Str_0, Box::new(v)))
                    },
                    None => None,
                }
            } else {
                None
            },
            _ => None,
        }
    } else {
        None
    }
}

pub open spec fn gson_dec_seq(items: Seq<JsonModel>, v3: bool) -> Option<Seq<Value>>
    decreases items,
{
    if items.len() == 0 {
        Some(Seq::empty())
    } else {
        match gson_dec(items[0], v3) {
            Some(v) => match gson_dec_seq(items.skip(1), v3) {
                Some(vs) => Some(seq![v] + vs),
                None => None,
            },
            None => None,
        }
    }
}

/// Version-two map entries: every key reads as a string key.
pub open spec fn gson_dec_obj(entries: Seq<(Seq<char>, JsonModel)>, v3: bool) -> Option<
    Seq<(Key, Value)>,
>
    decreases entries,
{
    if entries.len() == 0 {
        Some(Seq::empty())
    } else {
        match gson_dec(entries[0].1, v3) {
            Some(v) => match gson_dec_obj(entries.skip(1), v3) {
                Some(ps) => Some(seq![(Key::Str(entries[0].0), v)] + ps),
                None => None,
            },
            None => None,
        }
    }
}

/// Version-three flattened map entries: keys and values alternate.
pub open spec fn gson_dec_flat(items: Seq<JsonModel>, v3: bool) -> Option<Seq<(Key, Value)>>
    decreases items,
{
    if items.len() == 0 {
        Some(Seq::empty())
    } else if items.len() == 1 {
        None
    } else {
        match gson_dec(items[0], v3) {
            Some(kv) => match text_key_of_value(kv) {
                Some(k) => match gson_dec(items[1], v3) {
                    Some(v) => match gson_dec_flat(items.skip(2), v3) {
                        Some(ps) => Some(seq![(k, v)] + ps),
                        None => None,
                    },
                    None => None,
                },
                None => None,
            },
            None => None,
        }
    }
}

pub open spec fn gson_dec_instr(j: JsonModel, v3: bool) -> Option<Instr>
    decreases j,
{
    match j {
        JsonModel::Arr(items) => if items.len() < 1 || !(items[0] is Str) {
            None
        } else {
            match gson_dec_seq(items.skip(1), v3) {
                Some(args) => Some(Instr { op: items[0]->Str_0, args }),
                None => None,
            }
        },
        _ => None,
    }
}

pub open spec fn gson_dec_instrs(items: Seq<JsonModel>, v3: bool) -> Option<Seq<Instr>>
    decreases items,
{
    if items.len() == 0 {
        Some(Seq::empty())
    } else {
        match gson_dec_instr(items[0], v3) {
            Some(i) => match gson_dec_instrs(items.skip(1), v3) {
                Some(is) => Some(seq![i] + is),
                None => None,
            },
            None => None,
        }
    }
}


// ---------------------------------------------------------------------------
// Structural lemmas about the encoding.
// ---------------------------------------------------------------------------

pub broadcast proof fn lemma_gson_seq(items: Seq<Value>, v3: bool)
    ensures
        (#[trigger] gson_seq(items, v3)).len() == items.len(),
        forall|i: int| 0 <= i < items.len() ==> gson_seq(items, v3)[i] == gson(items[i], v3),
    decreases items,
{
    if items.len() > 0 {
        lemma_gson_seq(items.skip(1), v3);
    }
}

pub broadcast proof fn lemma_gson_obj(pairs: Seq<(Key, Value)>, v3: bool)
    ensures
        (#[trigger] gson_obj(pairs, v3)).len() == pairs.len(),
        forall|i: int| 0 <= i < pairs.len() ==> gson_obj(pairs, v3)[i] == (
            key_text(pairs[i].0),
            gson(pairs[i].1, v3),
        ),
    decreases pairs,
{
    if pairs.len() > 0 {
        lemma_gson_obj(pairs.skip(1), v3);
    }
}

#[verifier::rlimit(100)]
pub broadcast proof fn lemma_gson_flat(pairs: Seq<(Key, Value)>, v3: bool)
    ensures
        (#[trigger] gson_flat(pairs, v3)).len() == 2 * pairs.len(),
        forall|i: int|
            #![trigger pairs[i]]
            0 <= i < pairs.len() ==> gson_flat(pairs, v3)[2 * i] == gson_key(pairs[i].0)
                && gson_flat(pairs, v3)[2 * i + 1] == gson(pairs[i].1, v3),
    decreases pairs,
{
    if pairs.len() > 0 {
        lemma_gson_flat(pairs.skip(1), v3);
        assert forall|i: int| 0 <= i < pairs.len() implies gson_flat(pairs, v3)[2 * i]
            == gson_key((#[trigger] pairs[i]).0) && gson_flat(pairs, v3)[2 * i + 1] == gson(
            pairs[i].1,
            v3,
        ) by {
            if i > 0 {
                assert(pairs.skip(1)[i - 1] == pairs[i]);
                assert(gson_flat(pairs.skip(1), v3)[2 * (i - 1)] == gson_key(pairs[i].0));
                assert(gson_flat(pairs, v3)[2 * i] == gson_flat(pairs.skip(1), v3)[2 * (i - 1)]);
                assert(gson_flat(pairs, v3)[2 * i + 1] == gson_flat(pairs.skip(1), v3)[2 * (i - 1)
                    + 1]);
            }
        }
    }
}

pub broadcast proof fn lemma_gson_instrs(instrs: Seq<Instr>, v3: bool)
    ensures
        (#[trigger] gson_instrs(instrs, v3)).len() == instrs.len(),
        forall|i: int| 0 <= i < instrs.len() ==> gson_instrs(instrs, v3)[i] == gson_instr(
            instrs[i],
            v3,
        ),
    decreases instrs,
{
    if instrs.len() > 0 {
        lemma_gson_instrs(instrs.skip(1), v3);
    }
}

// ---------------------------------------------------------------------------
// The executable encoder.
// ---------------------------------------------------------------------------

/// Whether an error is one the text encoder raises: a `Cast` for a variant
/// the format cannot carry, or a `Generic` for a map key that version two
/// cannot write.
pub open spec fn text_enc_err(e: GremlinError) -> bool {
    e is Cast || e is Generic
}

fn generic_error(msg: &str) -> (e: GremlinError)
    ensures
        e matches GremlinError::Generic(_),
{
    GremlinError::Generic(msg.to_owned())
}

fn cast_error(msg: &str) -> (e: GremlinError)
    ensures
        e matches GremlinError::Cast(_),
{
    GremlinError::Cast(msg.to_owned())
}

/// Builds the tagged object `{"@type": tag, "@value": payload}`.
fn make_tagged(tag: &str, payload: Json) -> (r: Json)
    ensures
        r.model() == tagged(tag@, payload.model()),
{
    let ghost payload_model = payload.model();
    let mut entries: Vec<(String, Json)> = Vec::new();
    entries.push(("@type".to_owned(), Json::Str(tag.to_owned())));
    entries.push(("@value".to_owned(), payload));
    proof {
        lemma_model_jobj(entries@);
        assert(model_jobj(entries@) =~= seq![
            ("@type"@, JsonModel::Str(tag@)),
            ("@value"@, payload_model),
        ]);
    }
    Json::Obj(entries)
}

/// Encodes the items of a list.
fn write_jseq(items: &Vec<GValue>, v3: bool) -> (r: GremlinResult<Vec<Json>>)
    ensures
        match r {
            Ok(js) => text_seq_supported(model_seq(items@), v3) && model_jseq(js@) == gson_seq(
                model_seq(items@),
                v3,
            ),
            Err(e) => !text_seq_supported(model_seq(items@), v3) && text_enc_err(e),
        },
    decreases items,
{
    let ghost m = model_seq(items@);
    proof {
        lemma_model_seq(items@);
        lemma_gson_seq(m, v3);
    }
    let n = items.len();
    let mut out: Vec<Json> = Vec::new();
    let mut j: usize = 0;
    while j < n
        invariant
            j <= n,
            n == items@.len(),
            m == model_seq(items@),
            m.len() == n,
            forall|i: int| 0 <= i < n ==> m[i] == items@[i].model(),
            gson_seq(m, v3).len() == n,
            forall|i: int| 0 <= i < n ==> gson_seq(m, v3)[i] == gson(m[i], v3),
            model_jseq(out@) == gson_seq(m, v3).take(j as int),
            forall|i: int| 0 <= i < j ==> text_supported(m[i], v3),
        decreases n - j,
    {
        let r = write_graphson(&items[j], v3);
        match r {
            Ok(jv) => {
                proof {
                    lemma_model_jseq_push(out@, jv);
                    assert(model_jseq(out@).push(jv.model()) =~= gson_seq(m, v3).take(
                        j as int + 1,
                    ));
                }
                out.push(jv);
                j = j + 1;
            },
            Err(e) => {
                proof {
                    assert(!text_supported(m[j as int], v3));
                    assert(!text_seq_supported(m, v3));
                }
                return Err(e);
            },
        }
    }
    proof {
        assert(gson_seq(m, v3).take(n as int) =~= gson_seq(m, v3));
        assert(text_seq_supported(m, v3));
    }
    Ok(out)
}

/// Encodes a version-two map as a JSON object with bare string keys.
fn write_obj(pairs: &Vec<(GKey, GValue)>, v3: bool) -> (r: GremlinResult<Vec<(String, Json)>>)
    requires
        !v3,
    ensures
        match r {
            Ok(es) => text_pairs_supported(model_pairs(pairs@), v3) && model_jobj(es@) == gson_obj(
                model_pairs(pairs@),
                v3,
            ),
            Err(e) => !text_pairs_supported(model_pairs(pairs@), v3) && text_enc_err(e),
        },
    decreases pairs,
{
    let ghost m = model_pairs(pairs@);
    proof {
        lemma_model_pairs(pairs@);
        lemma_gson_obj(m, v3);
    }
    let n = pairs.len();
    let mut out: Vec<(String, Json)> = Vec::new();
    let mut j: usize = 0;
    while j < n
        invariant
            j <= n,
            n == pairs@.len(),
            m == model_pairs(pairs@),
            m.len() == n,
            forall|i: int| 0 <= i < n ==> m[i] == (pairs@[i].0.model(), pairs@[i].1.model()),
            gson_obj(m, v3).len() == n,
            forall|i: int| 0 <= i < n ==> gson_obj(m, v3)[i] == (
                key_text(m[i].0),
                gson(m[i].1, v3),
            ),
            !v3,
            model_jobj(out@) == gson_obj(m, v3).take(j as int),
            forall|i: int|
                #![trigger m[i]]
                0 <= i < j ==> text_key_supported(m[i].0, v3) && text_supported(m[i].1, v3),
        decreases n - j,
    {
        let key: String = match &pairs[j].0 {
            GKey::String(ks) => ks.clone(),
            GKey::Token(ks) => ks.clone(),
            _ => {
                proof {
                    assert(!text_key_supported(m[j as int].0, v3));
                    assert(!text_pairs_supported(m, v3));
                }
                return Err(generic_error("Non-string key value."));
            },
        };
        let r = write_graphson(&pairs[j].1, v3);
        match r {
            Ok(jv) => {
                proof {
                    lemma_model_jobj_push(out@, key, jv);
                    assert(key@ == key_text(m[j as int].0));
                    assert(model_jobj(out@).push((key@, jv.model())) =~= gson_obj(m, v3).take(
                        j as int + 1,
                    ));
                }
                out.push((key, jv));
                j = j + 1;
            },
            Err(e) => {
                proof {
                    assert(!text_supported(m[j as int].1, v3));
                    assert(!text_pairs_supported(m, v3));
                }
                return Err(e);
            },
        }
    }
    proof {
        assert(gson_obj(m, v3).take(n as int) =~= gson_obj(m, v3));
        assert(text_pairs_supported(m, v3));
    }
    Ok(out)
}

/// Encodes a version-three map as flattened alternating keys and values.
fn write_flat(pairs: &Vec<(GKey, GValue)>, v3: bool) -> (r: GremlinResult<Vec<Json>>)
    requires
        v3,
    ensures
        match r {
            Ok(js) => text_pairs_supported(model_pairs(pairs@), v3) && model_jseq(js@)
                == gson_flat(model_pairs(pairs@), v3),
            Err(e) => !text_pairs_supported(model_pairs(pairs@), v3) && text_enc_err(e),
        },
    decreases pairs,
{
    let ghost m = model_pairs(pairs@);
    proof {
        lemma_model_pairs(pairs@);
        lemma_gson_flat(m, v3);
    }
    let n = pairs.len();
    let mut out: Vec<Json> = Vec::new();
    let mut j: usize = 0;
    while j < n
        invariant
            j <= n,
            n == pairs@.len(),
            m == model_pairs(pairs@),
            m.len() == n,
            forall|i: int| 0 <= i < n ==> m[i] == (pairs@[i].0.model(), pairs@[i].1.model()),
            gson_flat(m, v3).len() == 2 * n,
            forall|i: int|
                #![trigger m[i]]
                0 <= i < n ==> gson_flat(m, v3)[2 * i] == gson_key(m[i].0) && gson_flat(m, v3)[2
                    * i + 1] == gson(m[i].1, v3),
            v3,
            model_jseq(out@) == gson_flat(m, v3).take(2 * j as int),
            forall|i: int|
                #![trigger m[i]]
                0 <= i < j ==> text_key_supported(m[i].0, v3) && text_supported(m[i].1, v3),
        decreases n - j,
    {
        let jkey: Json = match &pairs[j].0 {
            GKey::String(ks) => Json::Str(ks.clone()),
            GKey::Token(ks) => Json::Str(ks.clone()),
            GKey::Direction(d) => {
                let name = match d {
                    Direction::Out => "OUT",
                    Direction::From => "OUT",
                    Direction::In => "IN",
                    Direction::To => "IN",
                };
                make_tagged("g:Direction", Json::Str(name.to_owned()))
            },
            GKey::T(t) => {
                let name = match t {
                    T::Id => "id",
                    T::Key => "key",
                    T::Label => "label",
                    T::Value => "value",
                };
                make_tagged("g:T", Json::Str(name.to_owned()))
            },
        };
        assert(jkey.model() == gson_key(m[j as int].0));
        let r = write_graphson(&pairs[j].1, v3);
        match r {
            Ok(jv) => {
                proof {
                    lemma_model_jseq_push(out@, jkey);
                    lemma_model_jseq_push(out@.push(jkey), jv);
                    assert(model_jseq(out@).push(jkey.model()).push(jv.model()) =~= gson_flat(
                        m,
                        v3,
                    ).take(2 * (j as int + 1)));
                }
                out.push(jkey);
                out.push(jv);
                j = j + 1;
            },
            Err(e) => {
                proof {
                    assert(!text_supported(m[j as int].1, v3));
                    assert(!text_pairs_supported(m, v3));
                }
                return Err(e);
            },
        }
    }
    proof {
        assert(gson_flat(m, v3).take(2 * n as int) =~= gson_flat(m, v3));
        assert(text_pairs_supported(m, v3));
    }
    Ok(out)
}

/// Encodes the instructions of one half of a traversal program.
fn write_instrs_json(instrs: &Vec<Instruction>, v3: bool) -> (r: GremlinResult<Vec<Json>>)
    ensures
        match r {
            Ok(js) => text_instrs_supported(model_instrs(instrs@), v3) && model_jseq(js@)
                == gson_instrs(model_instrs(instrs@), v3),
            Err(e) => !text_instrs_supported(model_instrs(instrs@), v3) && text_enc_err(e),
        },
    decreases instrs,
{
    let ghost m = model_instrs(instrs@);
    proof {
        lemma_model_instrs(instrs@);
        lemma_gson_instrs(m, v3);
    }
    let n = instrs.len();
    let mut out: Vec<Json> = Vec::new();
    let mut j: usize = 0;
    while j < n
        invariant
            j <= n,
            n == instrs@.len(),
            m == model_instrs(instrs@),
            m.len() == n,
            forall|i: int| 0 <= i < n ==> m[i] == instrs@[i].model(),
            gson_instrs(m, v3).len() == n,
            forall|i: int| 0 <= i < n ==> gson_instrs(m, v3)[i] == gson_instr(m[i], v3),
            model_jseq(out@) == gson_instrs(m, v3).take(j as int),
            forall|i: int| 0 <= i < j ==> text_instr_supported(m[i], v3),
        decreases n - j,
    {
        let r = write_jseq(&instrs[j].args, v3);
        match r {
            Ok(args_json) => {
                let mut arr: Vec<Json> = Vec::new();
                arr.push(Json::Str(instrs[j].operator.clone()));
                let ghost arr0 = arr@;
                let mut rest = args_json;
                let ghost rest0 = rest@;
                arr.append(&mut rest);
                proof {
                    lemma_model_seq(instrs@[j as int].args@);
                    lemma_model_jseq(arr0 + rest0);
                    lemma_model_jseq(rest0);
                    assert(model_jseq(arr@) =~= seq![
                        JsonModel::Str(instrs@[j as int].operator@),
                    ] + model_jseq(rest0));
                    assert(Json::Arr(arr).model() == gson_instr(m[j as int], v3));
                }
                let jv = Json::Arr(arr);
                proof {
                    lemma_model_jseq_push(out@, jv);
                    assert(model_jseq(out@).push(jv.model()) =~= gson_instrs(m, v3).take(
                        j as int + 1,
                    ));
                }
                out.push(jv);
                j = j + 1;
            },
            Err(e) => {
                proof {
                    lemma_model_seq(instrs@[j as int].args@);
                    assert(!text_instr_supported(m[j as int], v3));
                    assert(!text_instrs_supported(m, v3));
                }
                return Err(e);
            },
        }
    }
    proof {
        assert(gson_instrs(m, v3).take(n as int) =~= gson_instrs(m, v3));
        assert(text_instrs_supported(m, v3));
    }
    Ok(out)
}

/// Writes one value in the tagged JSON form of the chosen format version.
///
/// Succeeds exactly when the version carries the value; a variant outside
/// the text universe is a `Cast` error, and a version-two map with a key
/// that is not a string is a `Generic` error.
#[verifier::rlimit(100)]
pub fn write_graphson(v: &GValue, v3: bool) -> (r: GremlinResult<Json>)
    ensures
        match r {
            Ok(j) => text_supported(v.model(), v3) && j.model() == gson(v.model(), v3),
            Err(e) => !text_supported(v.model(), v3) && text_enc_err(e),
        },
    decreases v,
{
    match v {
        GValue::Null => Ok(Json::Null),
        GValue::Bool(b) => Ok(Json::Bool(*b)),
        GValue::Int32(x) => Ok(make_tagged("g:Int32", Json::Int(*x as i64))),
        GValue::Int64(x) => Ok(make_tagged("g:Int64", Json::Int(*x))),
        GValue::Float(bits) => Ok(make_tagged("g:Float", Json::F32(*bits))),
        GValue::Double(bits) => Ok(make_tagged("g:Double", Json::F64(*bits))),
        GValue::String(cs) => Ok(Json::Str(cs.clone())),
        GValue::Uuid(u) => Ok(make_tagged("g:UUID", Json::Str(u.to_text()))),
        GValue::Date(d) => Ok(make_tagged("g:Date", Json::Int(d.millis))),
        GValue::List(items) => {
            let r = write_jseq(items, v3);
            match r {
                Ok(js) => {
                    proof {
                        lemma_model_seq(items@);
                    }
                    if v3 {
                        Ok(make_tagged("g:List", Json::Arr(js)))
                    } else {
                        Ok(Json::Arr(js))
                    }
                },
                Err(e) => {
                    proof {
                        lemma_model_seq(items@);
                    }
                    Err(e)
                },
            }
        },
        GValue::GMap(pairs) => {
            if v3 {
                let r = write_flat(pairs, v3);
                match r {
                    Ok(js) => {
                        proof {
                            lemma_model_pairs(pairs@);
                        }
                        Ok(make_tagged("g:Map", Json::Arr(js)))
                    },
                    Err(e) => {
                        proof {
                            lemma_model_pairs(pairs@);
                        }
                        Err(e)
                    },
                }
            } else {
                let r = write_obj(pairs, v3);
                match r {
                    Ok(es) => {
                        proof {
                            lemma_model_pairs(pairs@);
                        }
                        Ok(Json::Obj(es))
                    },
                    Err(e) => {
                        proof {
                            lemma_model_pairs(pairs@);
                        }
                        Err(e)
                    },
                }
            }
        },
        GValue::Bytecode(code) => {
            let ghost p = code.model();
            let r = write_instrs_json(&code.steps, v3);
            let steps_json = match r {
                Ok(js) => js,
                Err(e) => {
                    proof {
                        lemma_model_instrs(code.steps@);
                    }
                    return Err(e);
                },
            };
            let r = write_instrs_json(&code.sources, v3);
            let sources_json = match r {
                Ok(js) => js,
                Err(e) => {
                    proof {
                        lemma_model_instrs(code.sources@);
                    }
                    return Err(e);
                },
            };
            let mut body: Vec<(String, Json)> = Vec::new();
            body.push(("step".to_owned(), Json::Arr(steps_json)));
            body.push(("source".to_owned(), Json::Arr(sources_json)));
            proof {
                lemma_model_instrs(code.steps@);
                lemma_model_instrs(code.sources@);
                lemma_model_jobj(body@);
                assert(model_jobj(body@) =~= seq![
                    ("step"@, JsonModel::Arr(gson_instrs(p.steps, v3))),
                    ("source"@, JsonModel::Arr(gson_instrs(p.sources, v3))),
                ]);
            }
            Ok(make_tagged("g:Bytecode", Json::Obj(body)))
        },
        GValue::Scope(sc) => {
            let name = match sc {
                Scope::Global => "global",
                Scope::Local => "local",
            };
            Ok(make_tagged("g:Scope", Json::Str(name.to_owned())))
        },
        GValue::Order(o) => {
            let name = match o {
                Order::Asc => "asc",
                Order::Desc => "desc",
                Order::Shuffle => "shuffle",
            };
            Ok(make_tagged("g:Order", Json::Str(name.to_owned())))
        },
        GValue::T(t) => {
            let name = match t {
                T::Id => "id",
                T::Key => "key",
                T::Label => "label",
                T::Value => "value",
            };
            Ok(make_tagged("g:T", Json::Str(name.to_owned())))
        },
        GValue::Cardinality(c) => {
            let name = match c {
                Cardinality::List => "list",
                Cardinality::Single => "single",
                Cardinality::GSet => "set",
            };
            Ok(make_tagged("g:Cardinality", Json::Str(name.to_owned())))
        },
        GValue::Merge(mg) => {
            let name = match mg {
                Merge::OnCreate => "onCreate",
                Merge::OnMatch => "onMatch",
                Merge::OutV => "outV",
                Merge::InV => "inV",
            };
            Ok(make_tagged("g:Merge", Json::Str(name.to_owned())))
        },
        GValue::Direction(d) => {
            let name = match d {
                Direction::Out => "OUT",
                Direction::From => "OUT",
                Direction::In => "IN",
                Direction::To => "IN",
            };
            Ok(make_tagged("g:Direction", Json::Str(name.to_owned())))
        },
        GValue::Column(c) => {
            let name = match c {
                Column::Keys => "keys",
                Column::Values => "values",
            };
            Ok(make_tagged("g:Column", Json::Str(name.to_owned())))
        },
        GValue::Pop(pp) => {
            let name = match pp {
                Pop::All => "all",
                Pop::First => "first",
                Pop::Last => "last",
                Pop::Mixed => "mixed",
            };
            Ok(make_tagged("g:Pop", Json::Str(name.to_owned())))
        },
        GValue::P(pred) => {
            let r = write_graphson(&pred.value, v3);
            match r {
                Ok(jv) => {
                    let mut body: Vec<(String, Json)> = Vec::new();
                    body.push(("predicate".to_owned(), Json::Str(pred.operator.clone())));
                    body.push(("value".to_owned(), jv));
                    proof {
                        lemma_model_jobj(body@);
                        assert(model_jobj(body@) =~= seq![
                            ("predicate"@, JsonModel::Str(pred.operator@)),
                            ("value"@, gson(pred.value.model(), v3)),
                        ]);
                    }
                    Ok(make_tagged("g:P", Json::Obj(body)))
                },
                Err(e) => Err(e),
            }
        },
        GValue::TextP(pred) => {
            let r = write_graphson(&pred.value, v3);
            match r {
                Ok(jv) => {
                    let mut body: Vec<(String, Json)> = Vec::new();
                    body.push(("predicate".to_owned(), Json::Str(pred.operator.clone())));
                    body.push(("value".to_owned(), jv));
                    proof {
                        lemma_model_jobj(body@);
                        assert(model_jobj(body@) =~= seq![
                            ("predicate"@, JsonModel::Str(pred.operator@)),
                            ("value"@, gson(pred.value.model(), v3)),
                        ]);
                    }
                    Ok(make_tagged("g:TextP", Json::Obj(body)))
                },
                Err(e) => Err(e),
            }
        },
        _ => Err(cast_error("This value has no text form")),
    }
}


// ---------------------------------------------------------------------------
// The executable decoder.
// ---------------------------------------------------------------------------

fn str_is(s: &String, lit: &str) -> (r: bool)
    ensures
        r == (s@ == lit@),
{
    *s == lit.to_owned()
}

fn hex_value(c: char) -> (r: Option<u64>)
    ensures
        r == hex_val(c),
{
    if c == '0' {
        Some(0u64)
    } else if c == '1' {
        Some(1u64)
    } else if c == '2' {
        Some(2u64)
    } else if c == '3' {
        Some(3u64)
    } else if c == '4' {
        Some(4u64)
    } else if c == '5' {
        Some(5u64)
    } else if c == '6' {
        Some(6u64)
    } else if c == '7' {
        Some(7u64)
    } else if c == '8' {
        Some(8u64)
    } else if c == '9' {
        Some(9u64)
    } else if c == 'a' || c == 'A' {
        Some(10u64)
    } else if c == 'b' || c == 'B' {
        Some(11u64)
    } else if c == 'c' || c == 'C' {
        Some(12u64)
    } else if c == 'd' || c == 'D' {
        Some(13u64)
    } else if c == 'e' || c == 'E' {
        Some(14u64)
    } else if c == 'f' || c == 'F' {
        Some(15u64)
    } else {
        None
    }
}

/// Reads a nibble at a position known to hold a hexadecimal digit.
fn hex_at(s: &str, i: usize) -> (r: u64)
    requires
        i < s@.len(),
        hex_val(s@[i as int]) is Some,
    ensures
        r == hex_digit_at(s@, i as int),
{
    let c = s.get_char(i);
    let v = hex_value(c);
    match v {
        Some(x) => x,
        None => 0,
    }
}

impl Uuid {
    /// Parses the 8-4-4-4-12 hyphenated hexadecimal text form.
    #[verifier::rlimit(100)]
    pub fn from_text(s: &str) -> (r: GremlinResult<Uuid>)
        ensures
            match r {
                Ok(u) => uuid_of_chars(s@) == Some(u),
                Err(e) => uuid_of_chars(s@) is None && e matches GremlinError::Cast(_),
            },
    {
        if s.unicode_len() != 36 {
            return Err(cast_error("Invalid text for Uuid"));
        }
        if s.get_char(8) != '-' || s.get_char(13) != '-' || s.get_char(18) != '-' || s.get_char(23)
            != '-' {
            return Err(cast_error("Invalid text for Uuid"));
        }
        let mut i: usize = 0;
        while i < 36
            invariant
                i <= 36,
                s@.len() == 36,
                forall|k: int|
                    0 <= k < i && k != 8 && k != 13 && k != 18 && k != 23 ==> hex_val(s@[k])
                        is Some,
            decreases 36 - i,
        {
            if i != 8 && i != 13 && i != 18 && i != 23 {
                let v = hex_value(s.get_char(i));
                if v.is_none() {
                    assert(hex_val(s@[i as int]) is None);
                    return Err(cast_error("Invalid text for Uuid"));
                }
            }
            i = i + 1;
        }
        let hi = (hex_at(s, 0) << 60) | (hex_at(s, 1) << 56) | (hex_at(s, 2) << 52) | (hex_at(
            s,
            3,
        ) << 48) | (hex_at(s, 4) << 44) | (hex_at(s, 5) << 40) | (hex_at(s, 6) << 36) | (hex_at(
            s,
            7,
        ) << 32) | (hex_at(s, 9) << 28) | (hex_at(s, 10) << 24) | (hex_at(s, 11) << 20) | (hex_at(
            s,
            12,
        ) << 16) | (hex_at(s, 14) << 12) | (hex_at(s, 15) << 8) | (hex_at(s, 16) << 4) | hex_at(
            s,
            17,
        );
        let lo = (hex_at(s, 19) << 60) | (hex_at(s, 20) << 56) | (hex_at(s, 21) << 52) | (hex_at(
            s,
            22,
        ) << 48) | (hex_at(s, 24) << 44) | (hex_at(s, 25) << 40) | (hex_at(s, 26) << 36) | (
        hex_at(s, 27) << 32) | (hex_at(s, 28) << 28) | (hex_at(s, 29) << 24) | (hex_at(s, 30)
            << 20) | (hex_at(s, 31) << 16) | (hex_at(s, 32) << 12) | (hex_at(s, 33) << 8) | (
        hex_at(s, 34) << 4) | hex_at(s, 35);
        Ok(Uuid { hi, lo })
    }
}

/// The guarded conversion from a decoded value to a text-format map key.
fn text_gkey_of(v: GValue) -> (r: GremlinResult<GKey>)
    ensures
        match r {
            Ok(k) => text_key_of_value(v.model()) == Some(k.model()),
            Err(e) => text_key_of_value(v.model()) is None && e matches GremlinError::Cast(_),
        },
{
    match v {
        GValue::String(cs) => Ok(GKey::String(cs)),
        GValue::Direction(d) => Ok(GKey::Direction(d)),
        GValue::T(t) => Ok(GKey::T(t)),
        _ => Err(cast_error("Invalid map key")),
    }
}

/// Decodes the elements of an array, starting at `from`.
fn decode_jseq(items: &Vec<Json>, from: usize, v3: bool) -> (r: GremlinResult<Vec<GValue>>)
    requires
        from <= items@.len(),
    ensures
        match r {
            Ok(vs) => gson_dec_seq(model_jseq(items@).skip(from as int), v3) == Some(
                model_seq(vs@),
            ),
            Err(e) => gson_dec_seq(model_jseq(items@).skip(from as int), v3) is None && (
            e matches GremlinError::Cast(_)),
        },
    decreases items, 0int,
{
    let ghost mj = model_jseq(items@);
    proof {
        lemma_model_jseq(items@);
    }
    let n = items.len();
    let mut out: Vec<GValue> = Vec::new();
    let mut idx: usize = from;
    while idx < n
        invariant
            from <= idx <= n,
            n == items@.len(),
            mj == model_jseq(items@),
            mj.len() == n,
            forall|i: int| 0 <= i < n ==> mj[i] == items@[i].model(),
            gson_dec_seq(mj.skip(from as int), v3) == (match gson_dec_seq(
                mj.skip(idx as int),
                v3,
            ) {
                Some(vs) => Some(model_seq(out@) + vs),
                None => None::<Seq<Value>>,
            }),
        decreases n - idx,
    {
        let r = read_graphson(&items[idx], v3);
        match r {
            Ok(v) => {
                proof {
                    crate::binary::lemma_skip_skip(mj, idx as int, 1);
                    assert(mj.skip(idx as int)[0] == mj[idx as int]);
                    lemma_model_seq_push(out@, v);
                    match gson_dec_seq(mj.skip(idx as int + 1), v3) {
                        Some(vs) => {
                            assert(model_seq(out@) + (seq![v.model()] + vs) =~= model_seq(
                                out@.push(v),
                            ) + vs);
                        },
                        None => {},
                    }
                }
                out.push(v);
                idx = idx + 1;
            },
            Err(e) => {
                proof {
                    assert(mj.skip(idx as int)[0] == mj[idx as int]);
                    assert(gson_dec_seq(mj.skip(idx as int), v3) is None);
                }
                return Err(e);
            },
        }
    }
    proof {
        assert(mj.skip(n as int) =~= Seq::<JsonModel>::empty());
        assert(model_seq(out@) + Seq::<Value>::empty() =~= model_seq(out@));
    }
    Ok(out)
}

/// Decodes a version-two JSON object as a map with string keys.
#[verifier::rlimit(100)]
fn decode_obj(entries: &Vec<(String, Json)>, v3: bool) -> (r: GremlinResult<Vec<(GKey, GValue)>>)
    ensures
        match r {
            Ok(ps) => gson_dec_obj(model_jobj(entries@), v3) == Some(model_pairs(ps@)),
            Err(e) => gson_dec_obj(model_jobj(entries@), v3) is None && (
            e matches GremlinError::Cast(_)),
        },
    decreases entries, 0int,
{
    let ghost mj = model_jobj(entries@);
    proof {
        lemma_model_jobj(entries@);
    }
    let n = entries.len();
    let mut out: Vec<(GKey, GValue)> = Vec::new();
    proof {
        assert(mj.skip(0int) =~= mj);
        if gson_dec_obj(mj, v3) is Some {
            assert(model_pairs(out@) + gson_dec_obj(mj, v3).unwrap() =~= gson_dec_obj(
                mj,
                v3,
            ).unwrap());
        }
    }
    let mut idx: usize = 0;
    while idx < n
        invariant
            idx <= n,
            n == entries@.len(),
            mj == model_jobj(entries@),
            mj.len() == n,
            forall|i: int| 0 <= i < n ==> mj[i] == (entries@[i].0@, entries@[i].1.model()),
            gson_dec_obj(mj.skip(idx as int), v3) is Some ==> gson_dec_obj(mj, v3) == Some(
                model_pairs(out@) + gson_dec_obj(mj.skip(idx as int), v3).unwrap(),
            ),
            gson_dec_obj(mj.skip(idx as int), v3) is None ==> gson_dec_obj(mj, v3) is None,
        decreases n - idx,
    {
        let r = read_graphson(&entries[idx].1, v3);
        match r {
            Ok(v) => {
                let key = GKey::String(entries[idx].0.clone());
                proof {
                    crate::binary::lemma_skip_skip(mj, idx as int, 1);
                    assert(mj.skip(idx as int)[0] == mj[idx as int]);
                    lemma_model_pairs_push(out@, key, v);
                    match gson_dec_obj(mj.skip(idx as int + 1), v3) {
                        Some(ps) => {
                            assert(model_pairs(out@) + (seq![(Key::Str(entries@[idx as int].0@), v.model())] + ps)
                                =~= model_pairs(out@.push((key, v))) + ps);
                        },
                        None => {},
                    }
                }
                out.push((key, v));
                idx = idx + 1;
            },
            Err(e) => {
                proof {
                    assert(mj.skip(idx as int)[0] == mj[idx as int]);
                    assert(gson_dec_obj(mj.skip(idx as int), v3) is None);
                }
                return Err(e);
            },
        }
    }
    proof {
        assert(mj.skip(n as int) =~= Seq::<(Seq<char>, JsonModel)>::empty());
        assert(model_pairs(out@) + Seq::<(Key, Value)>::empty() =~= model_pairs(out@));
    }
    Ok(out)
}

/// Decodes the flattened alternating keys and values of a version-three map.
#[verifier::rlimit(100)]
fn decode_flat(items: &Vec<Json>, v3: bool) -> (r: GremlinResult<Vec<(GKey, GValue)>>)
    ensures
        match r {
            Ok(ps) => gson_dec_flat(model_jseq(items@), v3) == Some(model_pairs(ps@)),
            Err(e) => gson_dec_flat(model_jseq(items@), v3) is None && (
            e matches GremlinError::Cast(_)),
        },
    decreases items, 0int,
{
    let ghost mj = model_jseq(items@);
    proof {
        lemma_model_jseq(items@);
    }
    let n = items.len();
    let mut out: Vec<(GKey, GValue)> = Vec::new();
    proof {
        assert(mj.skip(0int) =~= mj);
        if gson_dec_flat(mj, v3) is Some {
            assert(model_pairs(out@) + gson_dec_flat(mj, v3).unwrap() =~= gson_dec_flat(
                mj,
                v3,
            ).unwrap());
        }
    }
    let mut idx: usize = 0;
    while idx < n
        invariant
            idx <= n,
            n == items@.len(),
            mj == model_jseq(items@),
            mj.len() == n,
            forall|i: int| 0 <= i < n ==> mj[i] == items@[i].model(),
            gson_dec_flat(mj.skip(idx as int), v3) is Some ==> gson_dec_flat(mj, v3) == Some(
                model_pairs(out@) + gson_dec_flat(mj.skip(idx as int), v3).unwrap(),
            ),
            gson_dec_flat(mj.skip(idx as int), v3) is None ==> gson_dec_flat(mj, v3) is None,
        decreases n - idx,
    {
        if n - idx == 1 {
            assert(gson_dec_flat(mj.skip(idx as int), v3) is None);
            return Err(cast_error("A flattened map needs an even number of entries"));
        }
        let r = read_graphson(&items[idx], v3);
        let kv = match r {
            Ok(v) => v,
            Err(e) => {
                proof {
                    assert(mj.skip(idx as int)[0] == mj[idx as int]);
                    assert(gson_dec_flat(mj.skip(idx as int), v3) is None);
                }
                return Err(e);
            },
        };
        let r = text_gkey_of(kv);
        let key = match r {
            Ok(k) => k,
            Err(e) => {
                proof {
                    assert(mj.skip(idx as int)[0] == mj[idx as int]);
                    assert(gson_dec_flat(mj.skip(idx as int), v3) is None);
                }
                return Err(e);
            },
        };
        let r = read_graphson(&items[idx + 1], v3);
        let val = match r {
            Ok(v) => v,
            Err(e) => {
                proof {
                    assert(mj.skip(idx as int)[0] == mj[idx as int]);
                    assert(mj.skip(idx as int)[1] == mj[idx as int + 1]);
                    assert(gson_dec_flat(mj.skip(idx as int), v3) is None);
                }
                return Err(e);
            },
        };
        proof {
            crate::binary::lemma_skip_skip(mj, idx as int, 2);
            assert(mj.skip(idx as int)[0] == mj[idx as int]);
            assert(mj.skip(idx as int)[1] == mj[idx as int + 1]);
            lemma_model_pairs_push(out@, key, val);
            match gson_dec_flat(mj.skip(idx as int + 2), v3) {
                Some(ps) => {
                    assert(model_pairs(out@) + (seq![(key.model(), val.model())] + ps)
                        =~= model_pairs(out@.push((key, val))) + ps);
                },
                None => {},
            }
        }
        out.push((key, val));
        idx = idx + 2;
    }
    proof {
        assert(mj.skip(n as int) =~= Seq::<JsonModel>::empty());
        assert(model_pairs(out@) + Seq::<(Key, Value)>::empty() =~= model_pairs(out@));
    }
    Ok(out)
}

/// Decodes one instruction: an array holding the operator name and then the
/// arguments.
fn decode_instr_json(j: &Json, v3: bool) -> (r: GremlinResult<Instruction>)
    ensures
        match r {
            Ok(i) => gson_dec_instr(j.model(), v3) == Some(i.model()),
            Err(e) => gson_dec_instr(j.model(), v3) is None && e matches GremlinError::Cast(_),
        },
    decreases j, 0int,
{
    match j {
        Json::Arr(items) => {
            proof {
                lemma_model_jseq(items@);
            }
            if items.len() < 1 {
                return Err(cast_error("An instruction needs an operator name"));
            }
            let op: String = match &items[0] {
                Json::Str(cs) => cs.clone(),
                _ => {
                    return Err(cast_error("An instruction needs an operator name"));
                },
            };
            let r = decode_jseq(items, 1, v3);
            match r {
                Ok(args) => {
                    let instruction = Instruction { operator: op, args };
                    proof {
                        lemma_model_seq(instruction.args@);
                    }
                    Ok(instruction)
                },
                Err(e) => Err(e),
            }
        },
        _ => Err(cast_error("An instruction must be an array")),
    }
}

/// Decodes the instructions of one half of a traversal program.
#[verifier::rlimit(100)]
fn decode_instrs_json(items: &Vec<Json>, v3: bool) -> (r: GremlinResult<Vec<Instruction>>)
    ensures
        match r {
            Ok(is) => gson_dec_instrs(model_jseq(items@), v3) == Some(model_instrs(is@)),
            Err(e) => gson_dec_instrs(model_jseq(items@), v3) is None && (
            e matches GremlinError::Cast(_)),
        },
    decreases items, 0int,
{
    let ghost mj = model_jseq(items@);
    proof {
        lemma_model_jseq(items@);
    }
    let n = items.len();
    let mut out: Vec<Instruction> = Vec::new();
    proof {
        assert(mj.skip(0int) =~= mj);
        if gson_dec_instrs(mj, v3) is Some {
            assert(model_instrs(out@) + gson_dec_instrs(mj, v3).unwrap() =~= gson_dec_instrs(
                mj,
                v3,
            ).unwrap());
        }
    }
    let mut idx: usize = 0;
    while idx < n
        invariant
            idx <= n,
            n == items@.len(),
            mj == model_jseq(items@),
            mj.len() == n,
            forall|i: int| 0 <= i < n ==> mj[i] == items@[i].model(),
            gson_dec_instrs(mj.skip(idx as int), v3) is Some ==> gson_dec_instrs(mj, v3) == Some(
                model_instrs(out@) + gson_dec_instrs(mj.skip(idx as int), v3).unwrap(),
            ),
            gson_dec_instrs(mj.skip(idx as int), v3) is None ==> gson_dec_instrs(mj, v3) is None,
        decreases n - idx,
    {
        let r = decode_instr_json(&items[idx], v3);
        match r {
            Ok(instruction) => {
                proof {
                    crate::binary::lemma_skip_skip(mj, idx as int, 1);
                    assert(mj.skip(idx as int)[0] == mj[idx as int]);
                    lemma_model_instrs_push(out@, instruction);
                    match gson_dec_instrs(mj.skip(idx as int + 1), v3) {
                        Some(is) => {
                            assert(model_instrs(out@) + (seq![instruction.model()] + is)
                                =~= model_instrs(out@.push(instruction)) + is);
                        },
                        None => {},
                    }
                }
                out.push(instruction);
                idx = idx + 1;
            },
            Err(e) => {
                proof {
                    assert(mj.skip(idx as int)[0] == mj[idx as int]);
                    assert(gson_dec_instrs(mj.skip(idx as int), v3) is None);
                }
                return Err(e);
            },
        }
    }
    proof {
        assert(mj.skip(n as int) =~= Seq::<JsonModel>::empty());
        assert(model_instrs(out@) + Seq::<Instr>::empty() =~= model_instrs(out@));
    }
    Ok(out)
}

/// Decodes a tagged payload.
#[verifier::rlimit(100)]
fn read_tagged(tag: &String, payload: &Json, v3: bool) -> (r: GremlinResult<GValue>)
    ensures
        match r {
            Ok(v) => gson_dec_tagged(tag@, payload.model(), v3) == Some(v.model()),
            Err(e) => gson_dec_tagged(tag@, payload.model(), v3) is None && (
            e matches GremlinError::Cast(_)),
        },
    decreases payload, 1int,
{
    if str_is(tag, "g:Int32") {
        match payload {
            Json::Int(x) => {
                let x = *x;
                if -2147483648 <= x && x <= 2147483647 {
                    Ok(GValue::Int32(x as i32))
                } else {
                    Err(cast_error("A g:Int32 payload is out of range"))
                }
            },
            _ => Err(cast_error("Malformed g:Int32 payload")),
        }
    } else if str_is(tag, "g:Int64") {
        match payload {
            Json::Int(x) => Ok(GValue::Int64(*x)),
            _ => Err(cast_error("Malformed g:Int64 payload")),
        }
    } else if str_is(tag, "g:Float") {
        match payload {
            Json::F32(bits) => Ok(GValue::Float(*bits)),
            _ => Err(cast_error("Malformed g:Float payload")),
        }
    } else if str_is(tag, "g:Double") {
        match payload {
            Json::F64(bits) => Ok(GValue::Double(*bits)),
            _ => Err(cast_error("Malformed g:Double payload")),
        }
    } else if str_is(tag, "g:UUID") {
        match payload {
            Json::Str(cs) => {
                let r = Uuid::from_text(cs.as_str());
                match r {
                    Ok(u) => Ok(GValue::Uuid(u)),
                    Err(e) => Err(e),
                }
            },
            _ => Err(cast_error("Malformed g:UUID payload")),
        }
    } else if str_is(tag, "g:Date") {
        match payload {
            Json::Int(ms) => Ok(GValue::Date(Date { millis: *ms })),
            _ => Err(cast_error("Malformed g:Date payload")),
        }
    } else if str_is(tag, "g:List") {
        if !v3 {
            Err(cast_error("Unrecognized tag"))
        } else {
            match payload {
                Json::Arr(items) => {
                    let r = decode_jseq(items, 0, v3);
                    match r {
                        Ok(vs) => {
                            proof {
                                assert(model_jseq(items@).skip(0) =~= model_jseq(items@));
                            }
                            Ok(GValue::List(vs))
                        },
                        Err(e) => {
                            proof {
                                assert(model_jseq(items@).skip(0) =~= model_jseq(items@));
                            }
                            Err(e)
                        },
                    }
                },
                _ => Err(cast_error("Malformed g:List payload")),
            }
        }
    } else if str_is(tag, "g:Map") {
        if !v3 {
            Err(cast_error("Unrecognized tag"))
        } else {
            match payload {
                Json::Arr(items) => {
                    let r = decode_flat(items, v3);
                    match r {
                        Ok(ps) => Ok(GValue::GMap(ps)),
                        Err(e) => Err(e),
                    }
                },
                _ => Err(cast_error("Malformed g:Map payload")),
            }
        }
    } else if str_is(tag, "g:Bytecode") {
        match payload {
            Json::Obj(entries) => {
                proof {
                    lemma_model_jobj(entries@);
                }
                if entries.len() != 2 {
                    return Err(cast_error("Malformed g:Bytecode payload"));
                }
                if !str_is(&entries[0].0, "step") || !str_is(&entries[1].0, "source") {
                    return Err(cast_error("Malformed g:Bytecode payload"));
                }
                let steps_arr = match &entries[0].1 {
                    Json::Arr(items) => items,
                    _ => {
                        return Err(cast_error("Malformed g:Bytecode payload"));
                    },
                };
                let sources_arr = match &entries[1].1 {
                    Json::Arr(items) => items,
                    _ => {
                        return Err(cast_error("Malformed g:Bytecode payload"));
                    },
                };
                let r = decode_instrs_json(steps_arr, v3);
                let steps = match r {
                    Ok(is) => is,
                    Err(e) => {
                        return Err(e);
                    },
                };
                let r = decode_instrs_json(sources_arr, v3);
                let sources = match r {
                    Ok(is) => is,
                    Err(e) => {
                        return Err(e);
                    },
                };
                let code = Bytecode { sources, steps };
                proof {
                    assert(code.model() == (Prog {
                        sources: model_instrs(code.sources@),
                        steps: model_instrs(code.steps@),
                    }));
                }
                Ok(GValue::Bytecode(code))
            },
            _ => Err(cast_error("Malformed g:Bytecode payload")),
        }
    } else if str_is(tag, "g:Scope") {
        match payload {
            Json::Str(cs) => {
                if str_is(cs, "global") {
                    Ok(GValue::Scope(Scope::Global))
                } else if str_is(cs, "local") {
                    Ok(GValue::Scope(Scope::Local))
                } else {
                    Err(cast_error("Unrecognized scope name"))
                }
            },
            _ => Err(cast_error("Malformed g:Scope payload")),
        }
    } else if str_is(tag, "g:Order") {
        match payload {
            Json::Str(cs) => {
                if str_is(cs, "asc") {
                    Ok(GValue::Order(Order::Asc))
                } else if str_is(cs, "desc") {
                    Ok(GValue::Order(Order::Desc))
                } else if str_is(cs, "shuffle") {
                    Ok(GValue::Order(Order::Shuffle))
                } else {
                    Err(cast_error("Unrecognized order name"))
                }
            },
            _ => Err(cast_error("Malformed g:Order payload")),
        }
    } else if str_is(tag, "g:T") {
        match payload {
            Json::Str(cs) => {
                if str_is(cs, "id") {
                    Ok(GValue::T(T::Id))
                } else if str_is(cs, "key") {
                    Ok(GValue::T(T::Key))
                } else if str_is(cs, "label") {
                    Ok(GValue::T(T::Label))
                } else if str_is(cs, "value") {
                    Ok(GValue::T(T::Value))
                } else {
                    Err(cast_error("Unrecognized token name"))
                }
            },
            _ => Err(cast_error("Malformed g:T payload")),
        }
    } else if str_is(tag, "g:Cardinality") {
        match payload {
            Json::Str(cs) => {
                if str_is(cs, "list") {
                    Ok(GValue::Cardinality(Cardinality::List))
                } else if str_is(cs, "single") {
                    Ok(GValue::Cardinality(Cardinality::Single))
                } else if str_is(cs, "set") {
                    Ok(GValue::Cardinality(Cardinality::GSet))
                } else {
                    Err(cast_error("Unrecognized cardinality name"))
                }
            },
            _ => Err(cast_error("Malformed g:Cardinality payload")),
        }
    } else if str_is(tag, "g:Merge") {
        match payload {
            Json::Str(cs) => {
                if str_is(cs, "onCreate") {
                    Ok(GValue::Merge(Merge::OnCreate))
                } else if str_is(cs, "onMatch") {
                    Ok(GValue::Merge(Merge::OnMatch))
                } else if str_is(cs, "outV") {
                    Ok(GValue::Merge(Merge::OutV))
                } else if str_is(cs, "inV") {
                    Ok(GValue::Merge(Merge::InV))
                } else {
                    Err(cast_error("Unrecognized merge name"))
                }
            },
            _ => Err(cast_error("Malformed g:Merge payload")),
        }
    } else if str_is(tag, "g:Direction") {
        match payload {
            Json::Str(cs) => {
                if str_is(cs, "OUT") {
                    Ok(GValue::Direction(Direction::Out))
                } else if str_is(cs, "IN") {
                    Ok(GValue::Direction(Direction::In))
                } else {
                    Err(cast_error("Unrecognized direction name"))
                }
            },
            _ => Err(cast_error("Malformed g:Direction payload")),
        }
    } else if str_is(tag, "g:Column") {
        match payload {
            Json::Str(cs) => {
                if str_is(cs, "keys") {
                    Ok(GValue::Column(Column::Keys))
                } else if str_is(cs, "values") {
                    Ok(GValue::Column(Column::Values))
                } else {
                    Err(cast_error("Unrecognized column name"))
                }
            },
            _ => Err(cast_error("Malformed g:Column payload")),
        }
    } else if str_is(tag, "g:Pop") {
        match payload {
            Json::Str(cs) => {
                if str_is(cs, "all") {
                    Ok(GValue::Pop(Pop::All))
                } else if str_is(cs, "first") {
                    Ok(GValue::Pop(Pop::First))
                } else if str_is(cs, "last") {
                    Ok(GValue::Pop(Pop::Last))
                } else if str_is(cs, "mixed") {
                    Ok(GValue::Pop(Pop::Mixed))
                } else {
                    Err(cast_error("Unrecognized pop name"))
                }
            },
            _ => Err(cast_error("Malformed g:Pop payload")),
        }
    } else if str_is(tag, "g:P") || str_is(tag, "g:TextP") {
        match payload {
            Json::Obj(entries) => {
                proof {
                    lemma_model_jobj(entries@);
                }
                if entries.len() != 2 {
                    return Err(cast_error("Malformed predicate payload"));
                }
                if !str_is(&entries[0].0, "predicate") || !str_is(&entries[1].0, "value") {
                    return Err(cast_error("Malformed predicate payload"));
                }
                let op: String = match &entries[0].1 {
                    Json::Str(cs) => cs.clone(),
                    _ => {
                        return Err(cast_error("Malformed predicate payload"));
                    },
                };
                let r = read_graphson(&entries[1].1, v3);
                match r {
                    Ok(v) => {
                        if str_is(tag, "g:P") {
                            Ok(GValue::P(P { operator: op, value: Box::new(v) }))
                        } else {
                            Ok(GValue::TextP(TextP { operator: op, value: Box::new(v) }))
                        }
                    },
                    Err(e) => Err(e),
                }
            },
            _ => Err(cast_error("Malformed predicate payload")),
        }
    } else {
        Err(cast_error("Unrecognized tag"))
    }
}

/// Reads one value from its tagged JSON form in the chosen format version.
///
/// Succeeds exactly when the JSON value is a well-formed encoding of some
/// value under that version; anything else is a `Cast` error.
pub fn read_graphson(j: &Json, v3: bool) -> (r: GremlinResult<GValue>)
    ensures
        match r {
            Ok(v) => gson_dec(j.model(), v3) == Some(v.model()),
            Err(e) => gson_dec(j.model(), v3) is None && e matches GremlinError::Cast(_),
        },
    decreases j, 2int,
{
    match j {
        Json::Null => Ok(GValue::Null),
        Json::Bool(b) => Ok(GValue::Bool(*b)),
        Json::Str(cs) => Ok(GValue::String(cs.clone())),
        Json::Int(_) => Err(cast_error("A bare number has no typed form")),
        Json::F32(_) => Err(cast_error("A bare number has no typed form")),
        Json::F64(_) => Err(cast_error("A bare number has no typed form")),
        Json::Arr(items) => {
            if v3 {
                Err(cast_error("A bare array has no typed form in this version"))
            } else {
                let r = decode_jseq(items, 0, v3);
                match r {
                    Ok(vs) => {
                        proof {
                            assert(model_jseq(items@).skip(0) =~= model_jseq(items@));
                        }
                        Ok(GValue::List(vs))
                    },
                    Err(e) => {
                        proof {
                            assert(model_jseq(items@).skip(0) =~= model_jseq(items@));
                        }
                        Err(e)
                    },
                }
            }
        },
        Json::Obj(entries) => {
            proof {
                lemma_model_jobj(entries@);
            }
            let tag_shaped = entries.len() == 2 && str_is(&entries[0].0, "@type") && str_is(
                &entries[1].0,
                "@value",
            ) && (match &entries[0].1 {
                Json::Str(_) => true,
                _ => false,
            });
            if tag_shaped {
                let tag = match &entries[0].1 {
                    Json::Str(cs) => cs,
                    _ => {
                        return Err(cast_error("Malformed tag"));
                    },
                };
                proof {
                    assert(is_tag_shape(model_jobj(entries@)));
                    assert(model_jobj(entries@)[0].1->Str_0 == tag@);
                    assert(model_jobj(entries@)[1].1 == entries@[1].1.model());
                }
                read_tagged(tag, &entries[1].1, v3)
            } else if !v3 {
                proof {
                    assert(!is_tag_shape(model_jobj(entries@)));
                }
                let r = decode_obj(entries, v3);
                match r {
                    Ok(ps) => Ok(GValue::GMap(ps)),
                    Err(e) => Err(e),
                }
            } else {
                proof {
                    assert(!is_tag_shape(model_jobj(entries@)));
                }
                Err(cast_error("An untagged object has no typed form in this version"))
            }
        },
    }
}


// ---------------------------------------------------------------------------
// The round-trip law of the text codec.
// ---------------------------------------------------------------------------

/// Whether a map key comes back unchanged from its text form: strings always
/// do; version three also carries the direction (in its two plain values)
/// and token enumerations. A token key is written as its bare string and so
/// reads back as a string key, not a token.
pub open spec fn text_key_rt(k: Key, v3: bool) -> bool {
    match k {
        Key::Str(_) => true,
        Key::Direction(d) => v3 && (d == Direction::Out || d == Direction::In),
        Key::T(_) => v3,
        Key::Token(_) => false,
    }
}

/// Whether a version-two map would be mistaken for a tagged value: exactly
/// two entries whose keys are "@type" and "@value" in that order, the first
/// holding a string.
pub open spec fn v2_map_ambiguous(pairs: Seq<(Key, Value)>) -> bool {
    &&& pairs.len() == 2
    &&& pairs[0].0 == Key::Str("@type"@)
    &&& pairs[1].0 == Key::Str("@value"@)
    &&& pairs[0].1 is Str
}

/// The values a text-format version carries losslessly: its supported
/// variants, except the direction aliases `From` and `To` (written as their
/// plain counterparts), token map keys (written as bare strings), and
/// version-two maps shaped like a tagged value.
pub open spec fn text_rt(v: Value, v3: bool) -> bool
    decreases v,
{
    match v {
        Value::Null => true,
        Value::Bool(_) => true,
        Value::Int32(_) => true,
        Value::Int64(_) => true,
        Value::Float(_) => true,
        Value::Double(_) => true,
        Value::Str(_) => true,
        Value::Uuid(_) => true,
        Value::Date(_) => true,
        Value::List(items) => text_rt_seq(items, v3),
        Value::GMap(pairs) => text_rt_pairs(pairs, v3) && (v3 || !v2_map_ambiguous(pairs)),
        Value::Bytecode(p) => text_rt_instrs(p.sources, v3) && text_rt_instrs(p.steps, v3),
        Value::Scope(_) => true,
        Value::Order(_) => true,
        Value::T(_) => true,
        Value::Cardinality(_) => true,
        Value::Merge(_) => true,
        Value::Direction(d) => d == Direction::Out || d == Direction::In,
        Value::Column(_) => true,
        Value::Pop(_) => true,
        Value::P(_, val) => text_rt(*val, v3),
        Value::TextP(_, val) => text_rt(*val, v3),
        _ => false,
    }
}

pub open spec fn text_rt_seq(items: Seq<Value>, v3: bool) -> bool
    decreases items,
{
    forall|i: int| #![trigger items[i]] 0 <= i < items.len() ==> text_rt(items[i], v3)
}

pub open spec fn text_rt_pairs(pairs: Seq<(Key, Value)>, v3: bool) -> bool
    decreases pairs,
{
    forall|i: int|
        #![trigger pairs[i]]
        0 <= i < pairs.len() ==> text_key_rt(pairs[i].0, v3) && text_rt(pairs[i].1, v3)
}

pub open spec fn text_rt_instr(i: Instr, v3: bool) -> bool
    decreases i,
{
    text_rt_seq(i.args, v3)
}

pub open spec fn text_rt_instrs(instrs: Seq<Instr>, v3: bool) -> bool
    decreases instrs,
{
    forall|i: int| #![trigger instrs[i]] 0 <= i < instrs.len() ==> text_rt_instr(instrs[i], v3)
}

/// A tagged object decodes through the tag dispatch.
proof fn lemma_dec_tag_shape(tag: Seq<char>, payload: JsonModel, v3: bool)
    ensures
        gson_dec(tagged(tag, payload), v3) == gson_dec_tagged(tag, payload, v3),
{
    let entries = seq![("@type"@, JsonModel::Str(tag)), ("@value"@, payload)];
    assert(entries[0].0 == "@type"@ && entries[1].0 == "@value"@);
    assert(is_tag_shape(entries));
    assert(entries[0].1->Str_0 == tag);
    assert(entries[1].1 == payload);
}

/// Only the string variant writes a bare JSON string.
proof fn lemma_gson_str_inv(v: Value, v3: bool)
    ensures
        gson(v, v3) is Str ==> v is Str,
{
}

/// Every digit of a 64-bit value's hexadecimal form is a digit, and carries
/// its nibble.
proof fn lemma_hex16_digits(x: u64)
    ensures
        forall|j: int| 0 <= j < 16 ==> hex_val(#[trigger] hex16(x)[j]) is Some,
        hex_val(hex16(x)[0]) == Some((x >> 60) & 15),
        hex_val(hex16(x)[1]) == Some((x >> 56) & 15),
        hex_val(hex16(x)[2]) == Some((x >> 52) & 15),
        hex_val(hex16(x)[3]) == Some((x >> 48) & 15),
        hex_val(hex16(x)[4]) == Some((x >> 44) & 15),
        hex_val(hex16(x)[5]) == Some((x >> 40) & 15),
        hex_val(hex16(x)[6]) == Some((x >> 36) & 15),
        hex_val(hex16(x)[7]) == Some((x >> 32) & 15),
        hex_val(hex16(x)[8]) == Some((x >> 28) & 15),
        hex_val(hex16(x)[9]) == Some((x >> 24) & 15),
        hex_val(hex16(x)[10]) == Some((x >> 20) & 15),
        hex_val(hex16(x)[11]) == Some((x >> 16) & 15),
        hex_val(hex16(x)[12]) == Some((x >> 12) & 15),
        hex_val(hex16(x)[13]) == Some((x >> 8) & 15),
        hex_val(hex16(x)[14]) == Some((x >> 4) & 15),
        hex_val(hex16(x)[15]) == Some(x & 15),
{
    assert((x >> 60) & 15 < 16 && (x >> 56) & 15 < 16 && (x >> 52) & 15 < 16 && (x >> 48) & 15
        < 16 && (x >> 44) & 15 < 16 && (x >> 40) & 15 < 16 && (x >> 36) & 15 < 16 && (x >> 32) & 15
        < 16 && (x >> 28) & 15 < 16 && (x >> 24) & 15 < 16 && (x >> 20) & 15 < 16 && (x >> 16) & 15
        < 16 && (x >> 12) & 15 < 16 && (x >> 8) & 15 < 16 && (x >> 4) & 15 < 16 && x & 15 < 16)
        by (bit_vector);
}

/// The hyphenated text of a UUID parses back to the same UUID.
#[verifier::rlimit(100)]
pub proof fn lemma_uuid_text_roundtrip(u: Uuid)
    ensures
        uuid_of_chars(uuid_chars(u)) == Some(u),
{
    let cs = uuid_chars(u);
    lemma_hex16_digits(u.hi);
    lemma_hex16_digits(u.lo);
    assert(cs.len() == 36);
    assert(cs[8] == '-' && cs[13] == '-' && cs[18] == '-' && cs[23] == '-');
    assert forall|i: int|
        0 <= i < 36 && i != 8 && i != 13 && i != 18 && i != 23 implies hex_val(cs[i]) is Some by {
        if i < 8 {
            assert(cs[i] == hex16(u.hi)[i]);
        } else if i < 13 {
            assert(cs[i] == hex16(u.hi)[i - 1]);
        } else if i < 18 {
            assert(cs[i] == hex16(u.hi)[i - 2]);
        } else if i < 23 {
            assert(cs[i] == hex16(u.lo)[i - 19]);
        } else {
            assert(cs[i] == hex16(u.lo)[i - 20]);
        }
    }
    assert(hex_digit_at(cs, 0) == (u.hi >> 60) & 15);
    assert(hex_digit_at(cs, 1) == (u.hi >> 56) & 15);
    assert(hex_digit_at(cs, 2) == (u.hi >> 52) & 15);
    assert(hex_digit_at(cs, 3) == (u.hi >> 48) & 15);
    assert(hex_digit_at(cs, 4) == (u.hi >> 44) & 15);
    assert(hex_digit_at(cs, 5) == (u.hi >> 40) & 15);
    assert(hex_digit_at(cs, 6) == (u.hi >> 36) & 15);
    assert(hex_digit_at(cs, 7) == (u.hi >> 32) & 15);
    assert(hex_digit_at(cs, 9) == (u.hi >> 28) & 15);
    assert(hex_digit_at(cs, 10) == (u.hi >> 24) & 15);
    assert(hex_digit_at(cs, 11) == (u.hi >> 20) & 15);
    assert(hex_digit_at(cs, 12) == (u.hi >> 16) & 15);
    assert(hex_digit_at(cs, 14) == (u.hi >> 12) & 15);
    assert(hex_digit_at(cs, 15) == (u.hi >> 8) & 15);
    assert(hex_digit_at(cs, 16) == (u.hi >> 4) & 15);
    assert(hex_digit_at(cs, 17) == u.hi & 15);
    assert(hex_digit_at(cs, 19) == (u.lo >> 60) & 15);
    assert(hex_digit_at(cs, 20) == (u.lo >> 56) & 15);
    assert(hex_digit_at(cs, 21) == (u.lo >> 52) & 15);
    assert(hex_digit_at(cs, 22) == (u.lo >> 48) & 15);
    assert(hex_digit_at(cs, 24) == (u.lo >> 44) & 15);
    assert(hex_digit_at(cs, 25) == (u.lo >> 40) & 15);
    assert(hex_digit_at(cs, 26) == (u.lo >> 36) & 15);
    assert(hex_digit_at(cs, 27) == (u.lo >> 32) & 15);
    assert(hex_digit_at(cs, 28) == (u.lo >> 28) & 15);
    assert(hex_digit_at(cs, 29) == (u.lo >> 24) & 15);
    assert(hex_digit_at(cs, 30) == (u.lo >> 20) & 15);
    assert(hex_digit_at(cs, 31) == (u.lo >> 16) & 15);
    assert(hex_digit_at(cs, 32) == (u.lo >> 12) & 15);
    assert(hex_digit_at(cs, 33) == (u.lo >> 8) & 15);
    assert(hex_digit_at(cs, 34) == (u.lo >> 4) & 15);
    assert(hex_digit_at(cs, 35) == u.lo & 15);
    lemma_nibbles_roundtrip(u.hi);
    lemma_nibbles_roundtrip(u.lo);
}

/// Concrete facts about the tag literals: their lengths and the characters
/// that tell equal-length tags apart.
proof fn tag_facts()
    ensures
        ("g:Int32")@.len() == 7 && ("g:Int32")@[2] == 'I' && ("g:Int32")@[5] == '3',
        ("g:Int64")@.len() == 7 && ("g:Int64")@[2] == 'I' && ("g:Int64")@[5] == '6',
        ("g:Float")@.len() == 7 && ("g:Float")@[2] == 'F',
        ("g:Double")@.len() == 8 && ("g:Double")@[2] == 'D',
        ("g:UUID")@.len() == 6 && ("g:UUID")@[2] == 'U',
        ("g:Date")@.len() == 6 && ("g:Date")@[2] == 'D',
        ("g:List")@.len() == 6 && ("g:List")@[2] == 'L',
        ("g:Map")@.len() == 5 && ("g:Map")@[2] == 'M',
        ("g:Bytecode")@.len() == 10,
        ("g:Scope")@.len() == 7 && ("g:Scope")@[2] == 'S',
        ("g:Order")@.len() == 7 && ("g:Order")@[2] == 'O',
        ("g:T")@.len() == 3 && ("g:T")@[2] == 'T',
        ("g:Cardinality")@.len() == 13,
        ("g:Merge")@.len() == 7 && ("g:Merge")@[2] == 'M',
        ("g:Direction")@.len() == 11,
        ("g:Column")@.len() == 8 && ("g:Column")@[2] == 'C',
        ("g:Pop")@.len() == 5 && ("g:Pop")@[2] == 'P',
        ("g:P")@.len() == 3 && ("g:P")@[2] == 'P',
        ("g:TextP")@.len() == 7 && ("g:TextP")@[2] == 'T',
{
    reveal_strlit("g:Int32");
    reveal_strlit("g:Int64");
    reveal_strlit("g:Float");
    reveal_strlit("g:Double");
    reveal_strlit("g:UUID");
    reveal_strlit("g:Date");
    reveal_strlit("g:List");
    reveal_strlit("g:Map");
    reveal_strlit("g:Bytecode");
    reveal_strlit("g:Scope");
    reveal_strlit("g:Order");
    reveal_strlit("g:T");
    reveal_strlit("g:Cardinality");
    reveal_strlit("g:Merge");
    reveal_strlit("g:Direction");
    reveal_strlit("g:Column");
    reveal_strlit("g:Pop");
    reveal_strlit("g:P");
    reveal_strlit("g:TextP");
}

/// The tags of the dispatch are pairwise distinct.
proof fn lemma_tags_distinct()
    ensures
        "g:Int32"@ != "g:Int64"@,
        "g:Float"@ != "g:Int32"@ && "g:Float"@ != "g:Int64"@,
        "g:Double"@ != "g:Int32"@ && "g:Double"@ != "g:Int64"@ && "g:Double"@ != "g:Float"@,
        "g:UUID"@ != "g:Int32"@ && "g:UUID"@ != "g:Int64"@ && "g:UUID"@ != "g:Float"@ && "g:UUID"@
            != "g:Double"@,
        "g:Date"@ != "g:Int32"@ && "g:Date"@ != "g:Int64"@ && "g:Date"@ != "g:Float"@ && "g:Date"@
            != "g:Double"@ && "g:Date"@ != "g:UUID"@,
        forall|t: Seq<char>|
            #![trigger later_tag(t)]
            later_tag(t) ==> t != "g:Int32"@ && t != "g:Int64"@ && t != "g:Float"@ && t
                != "g:Double"@ && t != "g:UUID"@ && t != "g:Date"@,
        "g:Map"@ != "g:List"@,
        "g:Bytecode"@ != "g:List"@ && "g:Bytecode"@ != "g:Map"@,
        "g:Scope"@ != "g:List"@ && "g:Scope"@ != "g:Map"@ && "g:Scope"@ != "g:Bytecode"@,
        "g:Order"@ != "g:List"@ && "g:Order"@ != "g:Map"@ && "g:Order"@ != "g:Bytecode"@
            && "g:Order"@ != "g:Scope"@,
        "g:T"@ != "g:List"@ && "g:T"@ != "g:Map"@ && "g:T"@ != "g:Bytecode"@ && "g:T"@
            != "g:Scope"@ && "g:T"@ != "g:Order"@,
        "g:Cardinality"@ != "g:List"@ && "g:Cardinality"@ != "g:Map"@ && "g:Cardinality"@
            != "g:Bytecode"@ && "g:Cardinality"@ != "g:Scope"@ && "g:Cardinality"@ != "g:Order"@
            && "g:Cardinality"@ != "g:T"@,
        "g:Merge"@ != "g:List"@ && "g:Merge"@ != "g:Map"@ && "g:Merge"@ != "g:Bytecode"@
            && "g:Merge"@ != "g:Scope"@ && "g:Merge"@ != "g:Order"@ && "g:Merge"@ != "g:T"@
            && "g:Merge"@ != "g:Cardinality"@,
        "g:Direction"@ != "g:List"@ && "g:Direction"@ != "g:Map"@ && "g:Direction"@
            != "g:Bytecode"@ && "g:Direction"@ != "g:Scope"@ && "g:Direction"@ != "g:Order"@
            && "g:Direction"@ != "g:T"@ && "g:Direction"@ != "g:Cardinality"@ && "g:Direction"@
            != "g:Merge"@,
        "g:Column"@ != "g:List"@ && "g:Column"@ != "g:Map"@ && "g:Column"@ != "g:Bytecode"@
            && "g:Column"@ != "g:Scope"@ && "g:Column"@ != "g:Order"@ && "g:Column"@ != "g:T"@
            && "g:Column"@ != "g:Cardinality"@ && "g:Column"@ != "g:Merge"@ && "g:Column"@
            != "g:Direction"@,
        "g:Pop"@ != "g:List"@ && "g:Pop"@ != "g:Map"@ && "g:Pop"@ != "g:Bytecode"@ && "g:Pop"@
            != "g:Scope"@ && "g:Pop"@ != "g:Order"@ && "g:Pop"@ != "g:T"@ && "g:Pop"@
            != "g:Cardinality"@ && "g:Pop"@ != "g:Merge"@ && "g:Pop"@ != "g:Direction"@
            && "g:Pop"@ != "g:Column"@,
        "g:P"@ != "g:List"@ && "g:P"@ != "g:Map"@ && "g:P"@ != "g:Bytecode"@ && "g:P"@
            != "g:Scope"@ && "g:P"@ != "g:Order"@ && "g:P"@ != "g:T"@ && "g:P"@
            != "g:Cardinality"@ && "g:P"@ != "g:Merge"@ && "g:P"@ != "g:Direction"@ && "g:P"@
            != "g:Column"@ && "g:P"@ != "g:Pop"@,
        "g:TextP"@ != "g:List"@ && "g:TextP"@ != "g:Map"@ && "g:TextP"@ != "g:Bytecode"@
            && "g:TextP"@ != "g:Scope"@ && "g:TextP"@ != "g:Order"@ && "g:TextP"@ != "g:T"@
            && "g:TextP"@ != "g:Cardinality"@ && "g:TextP"@ != "g:Merge"@ && "g:TextP"@
            != "g:Direction"@ && "g:TextP"@ != "g:Column"@ && "g:TextP"@ != "g:Pop"@ && "g:TextP"@
            != "g:P"@,
{
    tag_facts();
    assert forall|t: Seq<char>| later_tag(t) implies t != "g:Int32"@ && t != "g:Int64"@ && t
        != "g:Float"@ && t != "g:Double"@ && t != "g:UUID"@ && t != "g:Date"@ by {
        later_tag_cases(t);
    }
}

/// The tags dispatched after the scalar group.
pub open spec fn later_tag(t: Seq<char>) -> bool {
    ||| t == "g:List"@
    ||| t == "g:Map"@
    ||| t == "g:Bytecode"@
    ||| t == "g:Scope"@
    ||| t == "g:Order"@
    ||| t == "g:T"@
    ||| t == "g:Cardinality"@
    ||| t == "g:Merge"@
    ||| t == "g:Direction"@
    ||| t == "g:Column"@
    ||| t == "g:Pop"@
    ||| t == "g:P"@
    ||| t == "g:TextP"@
}

proof fn later_tag_cases(t: Seq<char>)
    requires
        later_tag(t),
    ensures
        t != "g:Int32"@ && t != "g:Int64"@ && t != "g:Float"@ && t != "g:Double"@ && t
            != "g:UUID"@ && t != "g:Date"@,
{
    tag_facts();
}


/// Concrete facts about the enumeration-name literals.
proof fn name_facts()
    ensures
        ("global")@.len() == 6,
        ("local")@.len() == 5,
        ("asc")@.len() == 3,
        ("desc")@.len() == 4,
        ("shuffle")@.len() == 7,
        ("id")@.len() == 2,
        ("key")@.len() == 3,
        ("label")@.len() == 5 && ("label")@[0] == 'l',
        ("value")@.len() == 5 && ("value")@[0] == 'v',
        ("list")@.len() == 4,
        ("single")@.len() == 6,
        ("set")@.len() == 3,
        ("onCreate")@.len() == 8,
        ("onMatch")@.len() == 7,
        ("outV")@.len() == 4,
        ("inV")@.len() == 3,
        ("OUT")@.len() == 3,
        ("IN")@.len() == 2,
        ("keys")@.len() == 4,
        ("values")@.len() == 6,
        ("all")@.len() == 3,
        ("first")@.len() == 5 && ("first")@[0] == 'f',
        ("last")@.len() == 4,
        ("mixed")@.len() == 5 && ("mixed")@[0] == 'm',
{
    reveal_strlit("global");
    reveal_strlit("local");
    reveal_strlit("asc");
    reveal_strlit("desc");
    reveal_strlit("shuffle");
    reveal_strlit("id");
    reveal_strlit("key");
    reveal_strlit("label");
    reveal_strlit("value");
    reveal_strlit("list");
    reveal_strlit("single");
    reveal_strlit("set");
    reveal_strlit("onCreate");
    reveal_strlit("onMatch");
    reveal_strlit("outV");
    reveal_strlit("inV");
    reveal_strlit("OUT");
    reveal_strlit("IN");
    reveal_strlit("keys");
    reveal_strlit("values");
    reveal_strlit("all");
    reveal_strlit("first");
    reveal_strlit("last");
    reveal_strlit("mixed");
}

/// A well-formed map key decodes from its text form back to itself.
proof fn lemma_gson_key_rt(k: Key, v3: bool)
    requires
        text_key_rt(k, v3),
        v3,
    ensures
        gson_dec(gson_key(k), v3) is Some,
        text_key_of_value(gson_dec(gson_key(k), v3).unwrap()) == Some(k),
{
    lemma_tags_distinct();
    name_facts();
    match k {
        Key::Str(cs) => {},
        Key::Direction(d) => {
            lemma_dec_tag_shape("g:Direction"@, JsonModel::Str(direction_text(d)), v3);
            assert(later_tag("g:Direction"@));
        },
        Key::T(t) => {
            lemma_dec_tag_shape("g:T"@, JsonModel::Str(t_text(t)), v3);
            assert(later_tag("g:T"@));
        },
        Key::Token(_) => {},
    }
}

/// The round-trip law of the text codec, one value at a time: decoding a
/// value's tagged JSON form under either format version yields the value
/// back.
#[verifier::rlimit(100)]
pub proof fn lemma_text_round_trip(v: Value, v3: bool)
    requires
        text_rt(v, v3),
    ensures
        gson_dec(gson(v, v3), v3) == Some(v),
    decreases v, 3int,
{
    lemma_tags_distinct();
    match v {
        Value::Null => {},
        Value::Bool(_) => {},
        Value::Str(_) => {},
        Value::Int32(x) => {
            lemma_dec_tag_shape("g:Int32"@, JsonModel::Int(x as i64), v3);
        },
        Value::Int64(x) => {
            lemma_dec_tag_shape("g:Int64"@, JsonModel::Int(x), v3);
        },
        Value::Float(bits) => {
            lemma_dec_tag_shape("g:Float"@, JsonModel::F32(bits), v3);
        },
        Value::Double(bits) => {
            lemma_dec_tag_shape("g:Double"@, JsonModel::F64(bits), v3);
        },
        Value::Uuid(u) => {
            lemma_dec_tag_shape("g:UUID"@, JsonModel::Str(uuid_chars(u)), v3);
            lemma_uuid_text_roundtrip(u);
        },
        Value::Date(ms) => {
            lemma_dec_tag_shape("g:Date"@, JsonModel::Int(ms), v3);
        },
        Value::List(items) => {
            lemma_text_rt_seq(items, v3);
            if v3 {
                lemma_dec_tag_shape("g:List"@, JsonModel::Arr(gson_seq(items, v3)), v3);
                assert(later_tag("g:List"@));
            }
        },
        Value::GMap(pairs) => {
            if v3 {
                lemma_text_rt_flat(pairs, v3);
                lemma_dec_tag_shape("g:Map"@, JsonModel::Arr(gson_flat(pairs, v3)), v3);
                assert(later_tag("g:Map"@));
            } else {
                lemma_gson_obj(pairs, v3);
                let entries = gson_obj(pairs, v3);
                assert(!is_tag_shape(entries)) by {
                    if is_tag_shape(entries) {
                        assert(pairs.len() == 2);
                        assert(text_rt_pairs(pairs, v3));
                        assert(text_key_rt(pairs[0].0, v3));
                        assert(text_key_rt(pairs[1].0, v3));
                        assert(pairs[0].0 is Str && pairs[1].0 is Str);
                        assert(key_text(pairs[0].0) == "@type"@);
                        assert(pairs[0].0 == Key::Str("@type"@));
                        assert(pairs[1].0 == Key::Str("@value"@));
                        lemma_gson_str_inv(pairs[0].1, v3);
                        assert(v2_map_ambiguous(pairs));
                    }
                }
                lemma_text_rt_obj(pairs, v3);
            }
        },
        Value::Bytecode(p) => {
            lemma_text_rt_instrs(p.steps, v3);
            lemma_text_rt_instrs(p.sources, v3);
            let body = JsonModel::Obj(
                seq![
                    ("step"@, JsonModel::Arr(gson_instrs(p.steps, v3))),
                    ("source"@, JsonModel::Arr(gson_instrs(p.sources, v3))),
                ],
            );
            lemma_dec_tag_shape("g:Bytecode"@, body, v3);
            assert(later_tag("g:Bytecode"@));
            assert(p == (Prog { sources: p.sources, steps: p.steps }));
        },
        Value::Scope(sc) => {
            name_facts();
            lemma_dec_tag_shape("g:Scope"@, JsonModel::Str(scope_text(sc)), v3);
            assert(later_tag("g:Scope"@));
        },
        Value::Order(o) => {
            name_facts();
            lemma_dec_tag_shape("g:Order"@, JsonModel::Str(order_text(o)), v3);
            assert(later_tag("g:Order"@));
        },
        Value::T(t) => {
            name_facts();
            lemma_dec_tag_shape("g:T"@, JsonModel::Str(t_text(t)), v3);
            assert(later_tag("g:T"@));
        },
        Value::Cardinality(c) => {
            name_facts();
            lemma_dec_tag_shape("g:Cardinality"@, JsonModel::Str(cardinality_text(c)), v3);
            assert(later_tag("g:Cardinality"@));
        },
        Value::Merge(m) => {
            name_facts();
            lemma_dec_tag_shape("g:Merge"@, JsonModel::Str(merge_text(m)), v3);
            assert(later_tag("g:Merge"@));
        },
        Value::Direction(d) => {
            name_facts();
            lemma_dec_tag_shape("g:Direction"@, JsonModel::Str(direction_text(d)), v3);
            assert(later_tag("g:Direction"@));
        },
        Value::Column(c) => {
            name_facts();
            lemma_dec_tag_shape("g:Column"@, JsonModel::Str(column_text(c)), v3);
            assert(later_tag("g:Column"@));
        },
        Value::Pop(pp) => {
            name_facts();
            lemma_dec_tag_shape("g:Pop"@, JsonModel::Str(pop_text(pp)), v3);
            assert(later_tag("g:Pop"@));
        },
        Value::P(op, val) => {
            lemma_text_round_trip(*val, v3);
            let body = JsonModel::Obj(
                seq![
                    ("predicate"@, JsonModel::Str(op)),
                    ("value"@, gson(*val, v3)),
                ],
            );
            lemma_dec_tag_shape("g:P"@, body, v3);
            assert(later_tag("g:P"@));
        },
        Value::TextP(op, val) => {
            lemma_text_round_trip(*val, v3);
            let body = JsonModel::Obj(
                seq![
                    ("predicate"@, JsonModel::Str(op)),
                    ("value"@, gson(*val, v3)),
                ],
            );
            lemma_dec_tag_shape("g:TextP"@, body, v3);
            assert(later_tag("g:TextP"@));
        },
        _ => {},
    }
}

proof fn lemma_text_rt_seq(items: Seq<Value>, v3: bool)
    requires
        text_rt_seq(items, v3),
    ensures
        gson_dec_seq(gson_seq(items, v3), v3) == Some(items),
    decreases items, 0int,
{
    if items.len() == 0 {
        assert(items =~= Seq::<Value>::empty());
    } else {
        assert(gson_seq(items, v3)[0] == gson(items[0], v3));
        assert(gson_seq(items, v3).skip(1) =~= gson_seq(items.skip(1), v3));
        lemma_text_round_trip(items[0], v3);
        assert(text_rt_seq(items.skip(1), v3)) by {
            assert forall|i: int| 0 <= i < items.skip(1).len() implies text_rt(
                #[trigger] items.skip(1)[i],
                v3,
            ) by {
                assert(items.skip(1)[i] == items[i + 1]);
            }
        }
        lemma_text_rt_seq(items.skip(1), v3);
        assert(seq![items[0]] + items.skip(1) =~= items);
    }
}

proof fn lemma_text_rt_obj(pairs: Seq<(Key, Value)>, v3: bool)
    requires
        text_rt_pairs(pairs, v3),
        !v3,
    ensures
        gson_dec_obj(gson_obj(pairs, v3), v3) == Some(pairs),
    decreases pairs, 0int,
{
    if pairs.len() == 0 {
        assert(pairs =~= Seq::<(Key, Value)>::empty());
    } else {
        assert(text_key_rt(pairs[0].0, v3) && text_rt(pairs[0].1, v3));
        assert(gson_obj(pairs, v3)[0] == (key_text(pairs[0].0), gson(pairs[0].1, v3)));
        assert(gson_obj(pairs, v3).skip(1) =~= gson_obj(pairs.skip(1), v3));
        lemma_text_round_trip(pairs[0].1, v3);
        assert(pairs[0].0 is Str);
        assert(Key::Str(key_text(pairs[0].0)) == pairs[0].0);
        assert(text_rt_pairs(pairs.skip(1), v3)) by {
            assert forall|i: int| 0 <= i < pairs.skip(1).len() implies text_key_rt(
                (#[trigger] pairs.skip(1)[i]).0,
                v3,
            ) && text_rt(pairs.skip(1)[i].1, v3) by {
                assert(pairs.skip(1)[i] == pairs[i + 1]);
            }
        }
        lemma_text_rt_obj(pairs.skip(1), v3);
        assert(pairs[0] == (pairs[0].0, pairs[0].1));
        assert(seq![(pairs[0].0, pairs[0].1)] + pairs.skip(1) =~= pairs);
    }
}

proof fn lemma_text_rt_flat(pairs: Seq<(Key, Value)>, v3: bool)
    requires
        text_rt_pairs(pairs, v3),
        v3,
    ensures
        gson_dec_flat(gson_flat(pairs, v3), v3) == Some(pairs),
    decreases pairs, 0int,
{
    if pairs.len() == 0 {
        assert(pairs =~= Seq::<(Key, Value)>::empty());
    } else {
        let fs = gson_flat(pairs, v3);
        assert(text_key_rt(pairs[0].0, v3) && text_rt(pairs[0].1, v3));
        assert(fs[0] == gson_key(pairs[0].0));
        assert(fs[1] == gson(pairs[0].1, v3));
        assert(fs.len() >= 2);
        assert(fs.skip(2) =~= gson_flat(pairs.skip(1), v3));
        lemma_gson_key_rt(pairs[0].0, v3);
        lemma_text_round_trip(pairs[0].1, v3);
        assert(text_rt_pairs(pairs.skip(1), v3)) by {
            assert forall|i: int| 0 <= i < pairs.skip(1).len() implies text_key_rt(
                (#[trigger] pairs.skip(1)[i]).0,
                v3,
            ) && text_rt(pairs.skip(1)[i].1, v3) by {
                assert(pairs.skip(1)[i] == pairs[i + 1]);
            }
        }
        lemma_text_rt_flat(pairs.skip(1), v3);
        assert(pairs[0] == (pairs[0].0, pairs[0].1));
        assert(seq![(pairs[0].0, pairs[0].1)] + pairs.skip(1) =~= pairs);
    }
}

proof fn lemma_text_rt_instr(i: Instr, v3: bool)
    requires
        text_rt_instr(i, v3),
    ensures
        gson_dec_instr(gson_instr(i, v3), v3) == Some(i),
    decreases i, 1int,
{
    let items = seq![JsonModel::Str(i.op)] + gson_seq(i.args, v3);
    assert(items[0] == JsonModel::Str(i.op));
    assert(items.skip(1) =~= gson_seq(i.args, v3));
    lemma_text_rt_seq(i.args, v3);
    assert(i == (Instr { op: i.op, args: i.args }));
}

proof fn lemma_text_rt_instrs(instrs: Seq<Instr>, v3: bool)
    requires
        text_rt_instrs(instrs, v3),
    ensures
        gson_dec_instrs(gson_instrs(instrs, v3), v3) == Some(instrs),
    decreases instrs, 2int,
{
    if instrs.len() == 0 {
        assert(instrs =~= Seq::<Instr>::empty());
    } else {
        assert(gson_instrs(instrs, v3)[0] == gson_instr(instrs[0], v3));
        assert(gson_instrs(instrs, v3).skip(1) =~= gson_instrs(instrs.skip(1), v3));
        lemma_text_rt_instr(instrs[0], v3);
        assert(text_rt_instrs(instrs.skip(1), v3)) by {
            assert forall|i: int| 0 <= i < instrs.skip(1).len() implies text_rt_instr(
                #[trigger] instrs.skip(1)[i],
                v3,
            ) by {
                assert(instrs.skip(1)[i] == instrs[i + 1]);
            }
        }
        lemma_text_rt_instrs(instrs.skip(1), v3);
        assert(seq![instrs[0]] + instrs.skip(1) =~= instrs);
    }
}

} // verus!
