use vstd::prelude::*;

mod binary;
mod binary_laws;
mod bytes;
mod client;
mod error;
mod graph_binary_v1;
mod graphson;
mod io;
mod message;
mod pool;
mod structure;
mod traversal;

verus! {

pub use crate::binary_laws::{lemma_bin_round_trip, lemma_bin_truncation};
pub use crate::client::{
    auth_request, drive_cycle, handle_response, response_results, ConnectionOptions, Credentials,
    DispatchStep, GremlinClient, GResultSet, PreparedRequest, SessionedClient,
};
pub use crate::error::{GremlinError, GremlinResult};
pub use crate::graph_binary_v1::{RequestMessage, ResponseMessage};
pub use crate::graphson::{
    lemma_text_round_trip, read_graphson, write_graphson, Json,
};
pub use crate::io::{IoProtocol, RequestPayload};
pub use crate::message::{
    Message, ReponseStatus, RequestIdV2, Response, ResponseResult,
};
pub use crate::pool::{probe_after_auth, probe_first, probe_request, GremlinConnectionManager, ProbeStep};
pub use crate::structure::{
    Bytecode, Cardinality, Column, Date, Direction, GKey, GValue, Instruction, Merge, Order, P,
    Pop, Scope, T, TextP, Traverser, Uuid,
};
pub use crate::traversal::{
    GraphTraversal, GraphTraversalSource, InnerGraphTraversalSource, RemoteStrategy,
    RemoteTraversalIterator, Traversal, TraversalStrategies, TraversalStrategy, GID, GIDs,
};

} // verus!
