use vstd::prelude::*;

use crate::client::{GremlinClient, GResultSet};
use crate::error::{GremlinError, GremlinResult};
use crate::structure::{model_seq, Bytecode, GValue, Instr, Prog};

verus! {

/// An element id usable to start a traversal.
#[derive(Debug, PartialEq)]
pub enum GID {
    String(String),
    Int32(i32),
    Int64(i64),
}

impl GID {
    pub open spec fn value_model(&self) -> crate::structure::Value {
        match self {
            GID::String(s) => crate::structure::Value::Str(s@),
            GID::Int32(x) => crate::structure::Value::Int32(*x),
            GID::Int64(x) => crate::structure::Value::Int64(*x),
        }
    }

    pub fn to_gvalue(self) -> (r: GValue)
        ensures
            r.model() == self.value_model(),
    {
        match self {
            GID::String(s) => GValue::String(s),
            GID::Int32(x) => GValue::Int32(x),
            GID::Int64(x) => GValue::Int64(x),
        }
    }
}

/// A bundle of element ids.
#[derive(Debug, PartialEq)]
pub struct GIDs(pub Vec<GID>);

pub open spec fn gids_model(ids: Seq<GID>) -> Seq<crate::structure::Value>
    decreases ids,
{
    if ids.len() == 0 {
        Seq::empty()
    } else {
        seq![ids[0].value_model()] + gids_model(ids.skip(1))
    }
}

/// A strategy a traversal source applies when a traversal runs.
#[derive(Debug, PartialEq)]
pub enum TraversalStrategy {
    Remote(RemoteStrategy),
}

/// Runs traversals through a remote client.
#[derive(Debug, PartialEq)]
pub struct RemoteStrategy {
    pub client: GremlinClient,
}

impl RemoteStrategy {
    pub fn new(client: GremlinClient) -> (r: RemoteStrategy)
        ensures
            r.client == client,
    {
        RemoteStrategy { client }
    }
}

/// The ordered strategies of a traversal source.
#[derive(Debug, PartialEq)]
pub struct TraversalStrategies {
    pub strategies: Vec<TraversalStrategy>,
}

impl TraversalStrategies {
    pub fn new(strategies: Vec<TraversalStrategy>) -> (r: TraversalStrategies)
        ensures
            r.strategies == strategies,
    {
        TraversalStrategies { strategies }
    }

    pub fn add_strategy(&mut self, strategy: TraversalStrategy)
        ensures
            final(self).strategies@ == old(self).strategies@.push(strategy),
    {
        self.strategies.push(strategy);
    }
}

/// Anything that stands for a traversal: it can hand out its program.
pub trait Traversal {
    fn bytecode(&self) -> &Bytecode;
}

/// A traversal under construction: the strategies it will run with and the
/// program built so far.
#[derive(Debug, PartialEq)]
pub struct GraphTraversal {
    pub strategies: TraversalStrategies,
    pub code: Bytecode,
}

impl GraphTraversal {
    pub fn new(strategies: TraversalStrategies, code: Bytecode) -> (r: GraphTraversal)
        ensures
            r.strategies == strategies,
            r.code == code,
    {
        GraphTraversal { strategies, code }
    }
}

impl Traversal for GraphTraversal {
    fn bytecode(&self) -> &Bytecode {
        &self.code
    }
}

/// The shared core of a traversal source.
#[derive(Debug, PartialEq)]
pub struct InnerGraphTraversalSource {
    pub strategies: TraversalStrategies,
}

/// The starting point of traversals: `v` and `e` open a pipeline over the
/// vertices or edges with the given ids.
#[derive(Debug, PartialEq)]
pub struct GraphTraversalSource {
    pub inner: InnerGraphTraversalSource,
}

/// The program a fresh single-step traversal holds: one step naming the
/// operator, with the ids as its arguments.
pub open spec fn start_step_model(op: Seq<char>, ids: Seq<GID>) -> Prog {
    Prog { sources: Seq::empty(), steps: seq![Instr { op: op, args: gids_model(ids) }] }
}

impl GraphTraversalSource {
    pub fn new(strategies: TraversalStrategies) -> (r: GraphTraversalSource)
        ensures
            r.inner.strategies == strategies,
    {
        GraphTraversalSource { inner: InnerGraphTraversalSource { strategies } }
    }

    /// A source running through the given remote client.
    pub fn with_remote(self, client: GremlinClient) -> (r: GraphTraversalSource)
        ensures
            r.inner.strategies.strategies@ == self.inner.strategies.strategies@.push(
                TraversalStrategy::Remote(RemoteStrategy { client }),
            ),
    {
        let mut strategies = self.inner.strategies;
        strategies.add_strategy(TraversalStrategy::Remote(RemoteStrategy::new(client)));
        GraphTraversalSource { inner: InnerGraphTraversalSource { strategies } }
    }

    /// A traversal over the vertices with the given ids.
    pub fn v(&self, ids: GIDs) -> (r: GraphTraversal)
        ensures
            r.strategies.strategies@ == self.inner.strategies.strategies@,
            r.code.model() == start_step_model("V"@, ids.0@),
    {
        self.start_step("V".to_owned(), ids)
    }

    /// A traversal over the edges with the given ids.
    pub fn e(&self, ids: GIDs) -> (r: GraphTraversal)
        ensures
            r.strategies.strategies@ == self.inner.strategies.strategies@,
            r.code.model() == start_step_model("E"@, ids.0@),
    {
        self.start_step("E".to_owned(), ids)
    }

    fn start_step(&self, op: String, ids: GIDs) -> (r: GraphTraversal)
        ensures
            r.strategies.strategies@ == self.inner.strategies.strategies@,
            r.code.model() == start_step_model(op@, ids.0@),
    {
        let ghost ids_model = ids.0@;
        let mut args: Vec<GValue> = Vec::new();
        let mut rest = ids.0;
        let n = rest.len();
        let mut j: usize = 0;
        proof {
            crate::structure::lemma_model_seq(args@);
            lemma_gids_model(ids_model);
        }
        while j < n
            invariant
                j <= n,
                n == ids_model.len(),
                rest@ == ids_model.skip(j as int),
                model_seq(args@) == gids_model(ids_model).take(j as int),
                gids_model(ids_model).len() == n,
            decreases n - j,
        {
            let id = rest.remove(0);
            proof {
                lemma_gids_model(ids_model);
                assert(ids_model.skip(j as int)[0] == ids_model[j as int]);
            }
            let gv = id.to_gvalue();
            proof {
                crate::structure::lemma_model_seq_push(args@, gv);
                assert(model_seq(args@.push(gv)) =~= gids_model(ids_model).take(j as int + 1));
                assert(rest@ =~= ids_model.skip(j as int + 1));
            }
            args.push(gv);
            j = j + 1;
        }
        proof {
            assert(gids_model(ids_model).take(n as int) =~= gids_model(ids_model));
        }
        let mut code = Bytecode::new();
        code.add_step(op, args);
        proof {
            assert(code.model().steps =~= start_step_model(op@, ids_model).steps);
            assert(code.model() == start_step_model(op@, ids_model));
        }
        let strategies = self.clone_strategies();
        GraphTraversal { strategies, code }
    }

    fn clone_strategies(&self) -> (r: TraversalStrategies)
        ensures
            r.strategies@ == self.inner.strategies.strategies@,
    {
        let mut out: Vec<TraversalStrategy> = Vec::new();
        let src = &self.inner.strategies.strategies;
        let n = src.len();
        let mut j: usize = 0;
        while j < n
            invariant
                j <= n,
                n == src@.len(),
                out@ == src@.take(j as int),
            decreases n - j,
        {
            let cloned = match &src[j] {
                TraversalStrategy::Remote(rs) => TraversalStrategy::Remote(
                    RemoteStrategy { client: rs.client.clone() },
                ),
            };
            assert(cloned == src@[j as int]);
            out.push(cloned);
            assert(out@ =~= src@.take(j as int + 1));
            j = j + 1;
        }
        assert(out@ =~= src@);
        TraversalStrategies { strategies: out }
    }
}

pub broadcast proof fn lemma_gids_model(ids: Seq<GID>)
    ensures
        (#[trigger] gids_model(ids)).len() == ids.len(),
        forall|i: int| 0 <= i < ids.len() ==> gids_model(ids)[i] == ids[i].value_model(),
    decreases ids,
{
    if ids.len() > 0 {
        lemma_gids_model(ids.skip(1));
    }
}

/// Walks the traversers of one finished call, handing each carried value
/// out in order. A result that is not a traverser is a `Cast` error.
#[derive(Debug, PartialEq)]
pub struct RemoteTraversalIterator {
    pub result: GResultSet,
}

impl RemoteTraversalIterator {
    pub fn new(result: GResultSet) -> (r: RemoteTraversalIterator)
        ensures
            r.result == result,
    {
        RemoteTraversalIterator { result }
    }

    /// The value of the next traverser, or a `Cast` error for a result that
    /// is no traverser, or nothing when the results are drained.
    pub fn next(&mut self) -> (r: Option<GremlinResult<GValue>>)
        ensures
            old(self).result.results@.len() == 0 ==> r is None && final(self).result.results@
                == old(self).result.results@,
            old(self).result.results@.len() > 0 ==> final(self).result.results@ == old(
                self,
            ).result.results@.skip(1) && (match r {
                Some(Ok(v)) => old(self).result.results@[0] matches GValue::Traverser(t) && v
                    == *t.value,
                Some(Err(e)) => !(old(self).result.results@[0] is Traverser) && (
                e matches GremlinError::Cast(_)),
                None => false,
            }),
    {
        let item = self.result.next();
        match item {
            None => None,
            Some(GValue::Traverser(t)) => Some(Ok(*t.value)),
            Some(_) => Some(
                Err(GremlinError::Cast("A remote traversal yields traversers".to_owned())),
            ),
        }
    }
}

} // verus!
