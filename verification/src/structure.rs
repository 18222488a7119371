use vstd::prelude::*;

use crate::error::{GremlinError, GremlinResult};

verus! {

// ---------------------------------------------------------------------------
// Closed enumerations of the wire's type universe.
// ---------------------------------------------------------------------------

#[derive(Debug, Clone, Copy, PartialEq, Eq, Hash, Structural)]
pub enum Scope {
    Global,
    Local,
}

#[derive(Debug, Clone, Copy, PartialEq, Eq, Hash, Structural)]
pub enum Order {
    Asc,
    Desc,
    Shuffle,
}

/// The token enumeration: pseudo-keys addressing the parts of an element.
#[derive(Debug, Clone, Copy, PartialEq, Eq, Hash, Structural)]
pub enum T {
    Id,
    Key,
    Label,
    Value,
}

#[derive(Debug, Clone, Copy, PartialEq, Eq, Hash, Structural)]
pub enum Cardinality {
    List,
    Single,
    GSet,
}

#[derive(Debug, Clone, Copy, PartialEq, Eq, Hash, Structural)]
pub enum Merge {
    OnCreate,
    OnMatch,
    OutV,
    InV,
}

#[derive(Debug, Clone, Copy, PartialEq, Eq, Hash, Structural)]
pub enum Direction {
    Out,
    In,
    From,
    To,
}

#[derive(Debug, Clone, Copy, PartialEq, Eq, Hash, Structural)]
pub enum Column {
    Keys,
    Values,
}

#[derive(Debug, Clone, Copy, PartialEq, Eq, Hash, Structural)]
pub enum Pop {
    All,
    First,
    Last,
    Mixed,
}

// ---------------------------------------------------------------------------
// Plain scalar carriers.
// ---------------------------------------------------------------------------

/// A UUID held as its two big-endian 64-bit halves, so that the sixteen raw
/// bytes of the wire form are a pure function of the fields.
#[derive(Debug, Clone, Copy, PartialEq, Eq, Hash, Structural)]
pub struct Uuid {
    pub hi: u64,
    pub lo: u64,
}

/// A millisecond-precision UTC timestamp: a signed offset from the epoch.
#[derive(Debug, Clone, Copy, PartialEq, Eq, Hash, Structural)]
pub struct Date {
    pub millis: i64,
}

// ---------------------------------------------------------------------------
// The mathematical model: spec-level mirrors of the executable types.
// ---------------------------------------------------------------------------

/// Spec-level mirror of `GKey`.
pub enum Key {
    Str(Seq<char>),
    Token(Seq<char>),
    Direction(Direction),
    T(T),
}

/// Spec-level mirror of `GValue`.
pub enum Value {
    Null,
    Bool(bool),
    Int32(i32),
    Int64(i64),
    /// IEEE-754 bit pattern of a 32-bit float.
    Float(u32),
    /// IEEE-754 bit pattern of a 64-bit float.
    Double(u64),
    Str(Seq<char>),
    Uuid(Uuid),
    Date(i64),
    List(Seq<Value>),
    GSet(Seq<Value>),
    GMap(Seq<(Key, Value)>),
    Bytecode(Prog),
    Traverser(i64, Box<Value>),
    Scope(Scope),
    Order(Order),
    T(T),
    Cardinality(Cardinality),
    Merge(Merge),
    Direction(Direction),
    Column(Column),
    Pop(Pop),
    P(Seq<char>, Box<Value>),
    TextP(Seq<char>, Box<Value>),
}

/// Spec-level mirror of `Instruction`.
pub struct Instr {
    pub op: Seq<char>,
    pub args: Seq<Value>,
}

/// Spec-level mirror of `Bytecode`.
pub struct Prog {
    pub sources: Seq<Instr>,
    pub steps: Seq<Instr>,
}

// ---------------------------------------------------------------------------
// The executable value union.
// ---------------------------------------------------------------------------

/// One step of a traversal program: an operator name with its arguments.
#[derive(Debug, PartialEq)]
pub struct Instruction {
    pub operator: String,
    pub args: Vec<GValue>,
}

/// A traversal program: source-configuration calls followed by the pipeline
/// steps, each an ordered `Instruction`.
#[derive(Debug, PartialEq)]
pub struct Bytecode {
    pub sources: Vec<Instruction>,
    pub steps: Vec<Instruction>,
}

/// A server-returned wrapper pairing a result value with its multiplicity.
#[derive(Debug, PartialEq)]
pub struct Traverser {
    pub bulk: i64,
    pub value: Box<GValue>,
}

/// A predicate: an operator name applied to a value.
#[derive(Debug, PartialEq)]
pub struct P {
    pub operator: String,
    pub value: Box<GValue>,
}

/// A text predicate: an operator name applied to a value.
#[derive(Debug, PartialEq)]
pub struct TextP {
    pub operator: String,
    pub value: Box<GValue>,
}

/// The restricted union of values usable as a map or property key.
#[derive(Debug, PartialEq)]
pub enum GKey {
    String(String),
    Token(String),
    Direction(Direction),
    T(T),
}

/// Every value that can cross the wire. Floating-point variants carry the
/// IEEE-754 bit pattern, which is exactly what the wire formats transport.
#[derive(Debug, PartialEq)]
pub enum GValue {
    Null,
    Bool(bool),
    Int32(i32),
    Int64(i64),
    Float(u32),
    Double(u64),
    String(String),
    Uuid(Uuid),
    Date(Date),
    List(Vec<GValue>),
    GSet(Vec<GValue>),
    GMap(Vec<(GKey, GValue)>),
    Bytecode(Bytecode),
    Traverser(Traverser),
    Scope(Scope),
    Order(Order),
    T(T),
    Cardinality(Cardinality),
    Merge(Merge),
    Direction(Direction),
    Column(Column),
    Pop(Pop),
    P(P),
    TextP(TextP),
}

// ---------------------------------------------------------------------------
// Views from executable data onto the model.
// ---------------------------------------------------------------------------

impl GKey {
    pub open spec fn model(&self) -> Key {
        match self {
            GKey::String(s) => Key::Str(s@),
            GKey::Token(s) => Key::Token(s@),
            GKey::Direction(d) => Key::Direction(*d),
            GKey::T(t) => Key::T(*t),
        }
    }
}

impl GValue {
    /// The mathematical value this datum stands for.
    pub open spec fn model(&self) -> Value
        decreases self,
    {
        match self {
            GValue::Null => Value::Null,
            GValue::Bool(b) => Value::Bool(*b),
            GValue::Int32(x) => Value::Int32(*x),
            GValue::Int64(x) => Value::Int64(*x),
            GValue::Float(bits) => Value::Float(*bits),
            GValue::Double(bits) => Value::Double(*bits),
            GValue::String(s) => Value::Str(s@),
            GValue::Uuid(u) => Value::Uuid(*u),
            GValue::Date(d) => Value::Date(d.millis),
            GValue::List(items) => Value::List(model_seq(items@)),
            GValue::GSet(items) => Value::GSet(model_seq(items@)),
            GValue::GMap(pairs) => Value::GMap(model_pairs(pairs@)),
            GValue::Bytecode(code) => Value::Bytecode(code.model()),
            GValue::Traverser(t) => Value::Traverser(t.bulk, Box::new(t.value.model())),
            GValue::Scope(s) => Value::Scope(*s),
            GValue::Order(o) => Value::Order(*o),
            GValue::T(t) => Value::T(*t),
            GValue::Cardinality(c) => Value::Cardinality(*c),
            GValue::Merge(m) => Value::Merge(*m),
            GValue::Direction(d) => Value::Direction(*d),
            GValue::Column(c) => Value::Column(*c),
            GValue::Pop(p) => Value::Pop(*p),
            GValue::P(p) => Value::P(p.operator@, Box::new(p.value.model())),
            GValue::TextP(p) => Value::TextP(p.operator@, Box::new(p.value.model())),
        }
    }
}

pub open spec fn model_seq(s: Seq<GValue>) -> Seq<Value>
    decreases s,
{
    if s.len() == 0 {
        Seq::empty()
    } else {
        seq![s[0].model()] + model_seq(s.skip(1))
    }
}

pub open spec fn model_pairs(s: Seq<(GKey, GValue)>) -> Seq<(Key, Value)>
    decreases s,
{
    if s.len() == 0 {
        Seq::empty()
    } else {
        seq![(s[0].0.model(), s[0].1.model())] + model_pairs(s.skip(1))
    }
}

impl Instruction {
    pub open spec fn model(&self) -> Instr
        decreases self,
    {
        Instr { op: self.operator@, args: model_seq(self.args@) }
    }
}

pub open spec fn model_instrs(s: Seq<Instruction>) -> Seq<Instr>
    decreases s,
{
    if s.len() == 0 {
        Seq::empty()
    } else {
        seq![s[0].model()] + model_instrs(s.skip(1))
    }
}

impl Bytecode {
    pub open spec fn model(&self) -> Prog
        decreases self,
    {
        Prog { sources: model_instrs(self.sources@), steps: model_instrs(self.steps@) }
    }
}

pub broadcast proof fn lemma_model_seq(s: Seq<GValue>)
    ensures
        (#[trigger] model_seq(s)).len() == s.len(),
        forall|i: int| 0 <= i < s.len() ==> model_seq(s)[i] == s[i].model(),
    decreases s,
{
    if s.len() > 0 {
        lemma_model_seq(s.skip(1));
    }
}

pub broadcast proof fn lemma_model_pairs(s: Seq<(GKey, GValue)>)
    ensures
        (#[trigger] model_pairs(s)).len() == s.len(),
        forall|i: int| 0 <= i < s.len() ==> model_pairs(s)[i] == (
            s[i].0.model(),
            s[i].1.model(),
        ),
    decreases s,
{
    if s.len() > 0 {
        lemma_model_pairs(s.skip(1));
    }
}

pub broadcast proof fn lemma_model_instrs(s: Seq<Instruction>)
    ensures
        (#[trigger] model_instrs(s)).len() == s.len(),
        forall|i: int| 0 <= i < s.len() ==> model_instrs(s)[i] == s[i].model(),
    decreases s,
{
    if s.len() > 0 {
        lemma_model_instrs(s.skip(1));
    }
}

// ---------------------------------------------------------------------------
// Constructors and conversions.
// ---------------------------------------------------------------------------

impl Instruction {
    pub fn new(operator: String, args: Vec<GValue>) -> (r: Instruction)
        ensures
            r.model() == (Instr { op: operator@, args: model_seq(args@) }),
    {
        Instruction { operator, args }
    }

    pub fn operator(&self) -> (r: &String)
        ensures
            r@ == self.model().op,
    {
        &self.operator
    }

    pub fn args(&self) -> (r: &Vec<GValue>)
        ensures
            model_seq(r@) == self.model().args,
    {
        &self.args
    }
}

impl Bytecode {
    pub fn new() -> (r: Bytecode)
        ensures
            r.model() == (Prog { sources: Seq::<Instr>::empty(), steps: Seq::<Instr>::empty() }),
    {
        Bytecode { sources: Vec::new(), steps: Vec::new() }
    }

    /// Appends one step instruction to the traversal pipeline.
    pub fn add_step(&mut self, operator: String, args: Vec<GValue>)
        ensures
            final(self).model().sources == old(self).model().sources,
            final(self).model().steps == old(self).model().steps.push(
                Instr { op: operator@, args: model_seq(args@) },
            ),
    {
        let ghost prev = self.steps@;
        let instruction = Instruction { operator, args };
        proof {
            lemma_model_instrs_push(prev, instruction);
        }
        self.steps.push(instruction);
    }

    /// Appends one source-configuration instruction.
    pub fn add_source(&mut self, operator: String, args: Vec<GValue>)
        ensures
            final(self).model().steps == old(self).model().steps,
            final(self).model().sources == old(self).model().sources.push(
                Instr { op: operator@, args: model_seq(args@) },
            ),
    {
        let ghost prev = self.sources@;
        let instruction = Instruction { operator, args };
        proof {
            lemma_model_instrs_push(prev, instruction);
        }
        self.sources.push(instruction);
    }

    pub fn steps(&self) -> (r: &Vec<Instruction>)
        ensures
            model_instrs(r@) == self.model().steps,
    {
        &self.steps
    }

    pub fn sources(&self) -> (r: &Vec<Instruction>)
        ensures
            model_instrs(r@) == self.model().sources,
    {
        &self.sources
    }
}

/// The model of a string-keyed argument list: each entry as a map entry with
/// a string key.
pub open spec fn model_str_pairs(s: Seq<(String, GValue)>) -> Seq<(Key, Value)>
    decreases s,
{
    if s.len() == 0 {
        Seq::empty()
    } else {
        seq![(Key::Str(s[0].0@), s[0].1.model())] + model_str_pairs(s.skip(1))
    }
}

pub broadcast proof fn lemma_model_str_pairs(s: Seq<(String, GValue)>)
    ensures
        (#[trigger] model_str_pairs(s)).len() == s.len(),
        forall|i: int| 0 <= i < s.len() ==> model_str_pairs(s)[i] == (
            Key::Str(s[i].0@),
            s[i].1.model(),
        ),
    decreases s,
{
    if s.len() > 0 {
        lemma_model_str_pairs(s.skip(1));
    }
}

pub proof fn lemma_model_str_pairs_push(s: Seq<(String, GValue)>, k: String, x: GValue)
    ensures
        model_str_pairs(s.push((k, x))) == model_str_pairs(s).push((Key::Str(k@), x.model())),
{
    lemma_model_str_pairs(s.push((k, x)));
    lemma_model_str_pairs(s);
    assert(model_str_pairs(s.push((k, x))) =~= model_str_pairs(s).push(
        (Key::Str(k@), x.model()),
    ));
}

pub proof fn lemma_model_seq_push(s: Seq<GValue>, x: GValue)
    ensures
        model_seq(s.push(x)) == model_seq(s).push(x.model()),
{
    lemma_model_seq(s.push(x));
    lemma_model_seq(s);
    assert(model_seq(s.push(x)) =~= model_seq(s).push(x.model()));
}

pub proof fn lemma_model_pairs_push(s: Seq<(GKey, GValue)>, k: GKey, x: GValue)
    ensures
        model_pairs(s.push((k, x))) == model_pairs(s).push((k.model(), x.model())),
{
    lemma_model_pairs(s.push((k, x)));
    lemma_model_pairs(s);
    assert(model_pairs(s.push((k, x))) =~= model_pairs(s).push((k.model(), x.model())));
}

pub proof fn lemma_model_instrs_push(s: Seq<Instruction>, x: Instruction)
    ensures
        model_instrs(s.push(x)) == model_instrs(s).push(x.model()),
{
    lemma_model_instrs(s.push(x));
    lemma_model_instrs(s);
    assert(model_instrs(s.push(x)) =~= model_instrs(s).push(x.model()));
}

} // verus!
