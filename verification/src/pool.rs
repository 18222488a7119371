use vstd::prelude::*;

use crate::client::{
    auth_args_model, auth_request, ConnectionOptions, Credentials, PreparedRequest,
};
use crate::error::{GremlinError, GremlinResult};
use crate::message::Response;
use crate::structure::{model_str_pairs, GValue, Key, Value};

verus! {

/// The connection factory the pool drives: it holds the configuration the
/// probe consults. The transport layer implements the pool's callbacks with
/// the decision functions below.
#[derive(Debug, PartialEq)]
pub struct GremlinConnectionManager {
    pub options: ConnectionOptions,
}

impl GremlinConnectionManager {
    pub fn new(options: ConnectionOptions) -> (r: GremlinConnectionManager)
        ensures
            r.options == options,
    {
        GremlinConnectionManager { options }
    }
}

/// The health-check probe: a trivial eval through the full request cycle.
pub open spec fn probe_args_model() -> Seq<(Key, Value)> {
    seq![
        (Key::Str("gremlin"@), Value::Str("g.inject(0)"@)),
        (Key::Str("language"@), Value::Str("gremlin-groovy"@)),
    ]
}

/// Builds the probe request: a no-op traversal evaluated anonymously.
pub fn probe_request() -> (r: PreparedRequest)
    ensures
        r.model().op == "eval"@,
        r.model().processor == ""@,
        r.model().args == probe_args_model(),
{
    let mut args: Vec<(String, GValue)> = Vec::new();
    args.push(("gremlin".to_owned(), GValue::String("g.inject(0)".to_owned())));
    args.push(("language".to_owned(), GValue::String("gremlin-groovy".to_owned())));
    proof {
        crate::structure::lemma_model_str_pairs(args@);
        assert(model_str_pairs(args@) =~= probe_args_model());
    }
    PreparedRequest { op: "eval".to_owned(), processor: "".to_owned(), args }
}

/// What the probe does after its first response.
#[derive(Debug, PartialEq)]
pub enum ProbeStep {
    /// The connection is healthy and stays in the idle pool.
    Healthy,
    /// Write this authentication reply and read once more.
    Authenticate(PreparedRequest),
    /// The connection is discarded; a fresh one is created on next checkout.
    Discard(GremlinError),
}

/// Judges the probe's first response: success keeps the connection, a
/// challenge is answered when credentials are configured, and anything else
/// discards the connection with the code and message verbatim.
pub fn probe_first(credentials: &Option<Credentials>, response: &Response) -> (r: ProbeStep)
    ensures
        ({
            let code = response.status.code;
            if code == 200 || code == 204 || code == 206 {
                r is Healthy
            } else if code == 407 && credentials is Some {
                r matches ProbeStep::Authenticate(req) && req.model().op == "authentication"@
                    && req.model().processor == "traversal"@ && req.model().args
                    == auth_args_model(credentials.unwrap())
            } else {
                r matches ProbeStep::Discard(GremlinError::Request(c, m)) && c == code && m@
                    == response.status.message@
            }
        }),
{
    let code = response.status.code;
    if code == 200 || code == 204 || code == 206 {
        ProbeStep::Healthy
    } else if code == 407 {
        match credentials {
            Some(c) => ProbeStep::Authenticate(auth_request(c)),
            None => ProbeStep::Discard(
                GremlinError::Request(response.status.code, response.status.message.clone()),
            ),
        }
    } else {
        ProbeStep::Discard(
            GremlinError::Request(response.status.code, response.status.message.clone()),
        )
    }
}

/// Judges the response to the probe's authentication reply. A 401 here means
/// the server is reachable but the credentials were rejected: the connection
/// is deliberately kept, so that the pool does not loop re-creating and
/// re-authenticating connections; any other non-success code discards it.
pub fn probe_after_auth(response: &Response) -> (r: GremlinResult<()>)
    ensures
        ({
            let code = response.status.code;
            if code == 200 || code == 204 || code == 206 || code == 401 {
                r is Ok
            } else {
                r matches Err(GremlinError::Request(c, m)) && c == code && m@
                    == response.status.message@
            }
        }),
{
    let code = response.status.code;
    if code == 200 || code == 204 || code == 206 || code == 401 {
        Ok(())
    } else {
        Err(GremlinError::Request(response.status.code, response.status.message.clone()))
    }
}

/// The pool's eviction law: a connection whose probe ends in 401 after the
/// authentication reply stays in the idle pool, while one that ends in any
/// other non-success code is judged broken and discarded.
pub proof fn lemma_probe_tolerates_rejected_credentials(first: Response, second: Response)
    requires
        first.status.code == 407,
        second.status.code == 401,
    ensures
        forall|r: GremlinResult<()>|
            call_ensures(probe_after_auth, (&second,), r) ==> r is Ok,
        forall|r: GremlinResult<()>, other: Response|
            other.status.code != 200 && other.status.code != 204 && other.status.code != 206
                && other.status.code != 401 && call_ensures(probe_after_auth, (&other,), r)
                ==> (r matches Err(GremlinError::Request(c, m)) && c == other.status.code),
{
}

} // verus!
