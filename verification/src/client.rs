use vstd::prelude::*;

use crate::error::{GremlinError, GremlinResult};
use crate::io::IoProtocol;
use crate::message::Response;
use crate::structure::{model_seq, model_str_pairs, GValue, Key, Uuid, Value};
use crate::bytes::push_bytes;
use vstd::utf8::encode_utf8;

verus! {

/// The username and password consulted on an authentication challenge.
#[derive(Debug, PartialEq)]
pub struct Credentials {
    pub username: String,
    pub password: String,
}

impl Clone for Credentials {
    fn clone(&self) -> (r: Self)
        ensures
            r == *self,
    {
        Credentials { username: self.username.clone(), password: self.password.clone() }
    }
}

/// The configuration a client is built from: one wire format fixed at
/// configuration time, the pool bound, and the optional credentials.
#[derive(Debug, PartialEq)]
pub struct ConnectionOptions {
    pub pool_size: u32,
    pub pool_get_connection_timeout_ms: Option<u64>,
    pub credentials: Option<Credentials>,
    pub protocol: IoProtocol,
}

impl Clone for ConnectionOptions {
    fn clone(&self) -> (r: Self)
        ensures
            r == *self,
    {
        ConnectionOptions {
            pool_size: self.pool_size,
            pool_get_connection_timeout_ms: self.pool_get_connection_timeout_ms,
            credentials: match &self.credentials {
                Some(c) => Some(c.clone()),
                None => None,
            },
            protocol: self.protocol,
        }
    }
}

/// A request about to be encoded and written: its op, processor and
/// arguments.
#[derive(Debug, PartialEq)]
pub struct PreparedRequest {
    pub op: String,
    pub processor: String,
    pub args: Vec<(String, GValue)>,
}

/// Spec-level mirror of a prepared request.
pub struct PreparedModel {
    pub op: Seq<char>,
    pub processor: Seq<char>,
    pub args: Seq<(Key, Value)>,
}

impl PreparedRequest {
    pub open spec fn model(&self) -> PreparedModel {
        PreparedModel {
            op: self.op@,
            processor: self.processor@,
            args: model_str_pairs(self.args@),
        }
    }
}

/// The NUL-delimited plain form of a credential pair, as the SASL exchange
/// sends it.
pub open spec fn sasl_plain(user: Seq<char>, pass: Seq<char>) -> Seq<u8> {
    seq![0u8] + encode_utf8(user) + seq![0u8] + encode_utf8(pass)
}

/// The base64 text of a byte sequence, in the standard padded alphabet.
pub uninterp spec fn base64_of(bytes: Seq<u8>) -> Seq<char>;

/// Relies on base64's `encode`: the standard-alphabet padded encoding, a
/// function of the input bytes alone, four output characters for every three
/// input bytes begun.
#[verifier::external_body]
fn base64_encode(input: &Vec<u8>) -> (r: String)
    ensures
        r@ == base64_of(input@),
        r@.len() == 4 * ((input@.len() + 2) / 3),
{
    base64::encode(input)
}

/// Builds the NUL-delimited credential bytes.
fn sasl_bytes(username: &str, password: &str) -> (r: Vec<u8>)
    ensures
        r@ == sasl_plain(username@, password@),
{
    let mut out: Vec<u8> = Vec::new();
    out.push(0);
    push_bytes(&mut out, username.as_bytes());
    out.push(0);
    push_bytes(&mut out, password.as_bytes());
    assert(out@ =~= sasl_plain(username@, password@));
    out
}

/// The model of the single authentication reply to a challenge: the base64
/// of the NUL-delimited credentials, sent as the `sasl` argument of an
/// `authentication` op on the `traversal` processor.
pub open spec fn auth_args_model(c: Credentials) -> Seq<(Key, Value)> {
    seq![
        (
            Key::Str("sasl"@),
            Value::Str(base64_of(sasl_plain(c.username@, c.password@))),
        ),
    ]
}

/// Builds the authentication reply for a challenge.
pub fn auth_request(c: &Credentials) -> (r: PreparedRequest)
    ensures
        r.model().op == "authentication"@,
        r.model().processor == "traversal"@,
        r.model().args == auth_args_model(*c),
{
    let sasl = sasl_bytes(c.username.as_str(), c.password.as_str());
    let encoded = base64_encode(&sasl);
    let mut args: Vec<(String, GValue)> = Vec::new();
    args.push(("sasl".to_owned(), GValue::String(encoded)));
    proof {
        crate::structure::lemma_model_str_pairs(args@);
        assert(model_str_pairs(args@) =~= auth_args_model(*c));
    }
    PreparedRequest { op: "authentication".to_owned(), processor: "traversal".to_owned(), args }
}

// ---------------------------------------------------------------------------
// The dispatch state machine: how one response is interpreted.
// ---------------------------------------------------------------------------

/// What the dispatcher does after reading one response.
#[derive(Debug, PartialEq)]
pub enum DispatchStep {
    /// The call is over; these are its results.
    Complete(Vec<GValue>),
    /// Write this authentication reply, then read again.
    Authenticate(PreparedRequest),
    /// The call failed.
    Fail(GremlinError),
}

/// The result sequence a successful response carries: the items of a list or
/// set, a single other value as a one-element sequence, nothing when no data
/// came back.
pub open spec fn drain(data: Option<Value>) -> Seq<Value> {
    match data {
        None => Seq::empty(),
        Some(Value::List(items)) => items,
        Some(Value::GSet(items)) => items,
        Some(v) => seq![v],
    }
}

/// Turns the optional result data into the result sequence.
pub fn response_results(data: Option<GValue>) -> (r: Vec<GValue>)
    ensures
        model_seq(r@) == drain(match data {
            Some(v) => Some(v.model()),
            None => None,
        }),
{
    match data {
        None => {
            let out: Vec<GValue> = Vec::new();
            proof {
                crate::structure::lemma_model_seq(out@);
                assert(model_seq(out@) =~= Seq::<Value>::empty());
            }
            out
        },
        Some(GValue::List(items)) => {
            items
        },
        Some(GValue::GSet(items)) => {
            items
        },
        Some(other) => {
            let mut out: Vec<GValue> = Vec::new();
            let ghost m = other.model();
            out.push(other);
            proof {
                crate::structure::lemma_model_seq(out@);
                assert(model_seq(out@) =~= seq![m]);
            }
            out
        },
    }
}

/// The dispatch decision for one response, as a pure function of the status
/// code, the configured credentials, and whether an authentication reply was
/// already sent in this cycle.
pub open spec fn dispatch_spec(
    creds_present: bool,
    retried: bool,
    code: i16,
    message: Seq<char>,
    data: Option<Value>,
) -> DispatchChoice {
    if code == 200 || code == 206 {
        DispatchChoice::Done(drain(data))
    } else if code == 204 {
        DispatchChoice::Done(Seq::empty())
    } else if code == 407 && creds_present && !retried {
        DispatchChoice::Challenge
    } else {
        DispatchChoice::Refused(code, message)
    }
}

/// Spec-level mirror of the dispatch decision.
pub enum DispatchChoice {
    Done(Seq<Value>),
    Challenge,
    Refused(i16, Seq<char>),
}

pub open spec fn response_data_model(r: Response) -> Option<Value> {
    match r.result.data {
        Some(v) => Some(v.model()),
        None => None,
    }
}

/// Interprets one response: success drains the data, no content yields an
/// empty sequence, an authentication challenge is answered once when
/// credentials are configured (reusing the challenge's request id is the
/// transport's concern), and every other status fails with the code and
/// message verbatim.
pub fn handle_response(
    credentials: &Option<Credentials>,
    retried: bool,
    response: Response,
) -> (r: DispatchStep)
    ensures
        match dispatch_spec(
            credentials is Some,
            retried,
            response.status.code,
            response.status.message@,
            response_data_model(response),
        ) {
            DispatchChoice::Done(vs) => r matches DispatchStep::Complete(out) && model_seq(out@)
                == vs,
            DispatchChoice::Challenge => r matches DispatchStep::Authenticate(req)
                && req.model().op == "authentication"@ && req.model().processor == "traversal"@
                && req.model().args == auth_args_model(credentials.unwrap()),
            DispatchChoice::Refused(code, msg) => r matches DispatchStep::Fail(e) && (
            e matches GremlinError::Request(c, m) && c == code && m@ == msg),
        },
{
    let code = response.status.code;
    if code == 200 || code == 206 {
        DispatchStep::Complete(response_results(response.result.data))
    } else if code == 204 {
        let out: Vec<GValue> = Vec::new();
        proof {
            crate::structure::lemma_model_seq(out@);
            assert(model_seq(out@) =~= Seq::<Value>::empty());
        }
        DispatchStep::Complete(out)
    } else if code == 407 {
        match credentials {
            Some(c) if !retried => DispatchStep::Authenticate(auth_request(c)),
            _ => DispatchStep::Fail(
                GremlinError::Request(response.status.code, response.status.message),
            ),
        }
    } else {
        DispatchStep::Fail(GremlinError::Request(response.status.code, response.status.message))
    }
}

/// The outcome of one whole request cycle over a given sequence of server
/// responses: how many responses were consumed (one write preceded each) and
/// what the caller sees. At most one authentication retry happens; a second
/// challenge fails with its code and message.
pub open spec fn cycle_spec(creds_present: bool, responses: Seq<Response>) -> (int, Result<
    Seq<Value>,
    (i16, Seq<char>),
>) {
    if responses.len() == 0 {
        (0, Err((0, Seq::empty())))
    } else {
        let first = responses[0];
        match dispatch_spec(
            creds_present,
            false,
            first.status.code,
            first.status.message@,
            response_data_model(first),
        ) {
            DispatchChoice::Done(vs) => (1, Ok(vs)),
            DispatchChoice::Refused(c, m) => (1, Err((c, m))),
            DispatchChoice::Challenge => if responses.len() < 2 {
                (1, Err((0, Seq::empty())))
            } else {
                let second = responses[1];
                match dispatch_spec(
                    creds_present,
                    true,
                    second.status.code,
                    second.status.message@,
                    response_data_model(second),
                ) {
                    DispatchChoice::Done(vs) => (2, Ok(vs)),
                    DispatchChoice::Refused(c, m) => (2, Err((c, m))),
                    DispatchChoice::Challenge => (2, Err((0, Seq::empty()))),
                }
            },
        }
    }
}

/// Drives one logical call over the responses the connection yields, in
/// order. Returns how many responses were consumed together with the
/// caller-visible outcome. Consuming a response after the first implies the
/// one authentication reply was written in between.
pub fn drive_cycle(credentials: &Option<Credentials>, responses: Vec<Response>) -> (r: (
    usize,
    GremlinResult<Vec<GValue>>,
))
    requires
        responses@.len() >= 1,
    ensures
        ({
            let spec_r = cycle_spec(credentials is Some, responses@);
            &&& r.0 == spec_r.0
            &&& (match r.1 {
                Ok(out) => spec_r.1 matches Ok(vs) && model_seq(out@) == vs,
                Err(GremlinError::Request(c, m)) => spec_r.1 matches Err(p) && p.0 == c && p.1
                    == m@,
                Err(_) => spec_r.1 matches Err(p) && p.0 == 0,
            })
        }),
{
    let mut rest = responses;
    let first = rest.remove(0);
    let step = handle_response(credentials, false, first);
    match step {
        DispatchStep::Complete(out) => (1, Ok(out)),
        DispatchStep::Fail(e) => (1, Err(e)),
        DispatchStep::Authenticate(_reply) => {
            if rest.len() == 0 {
                return (
                    1,
                    Err(GremlinError::Generic("The connection yielded no reply".to_owned())),
                );
            }
            let second = rest.remove(0);
            assert(second == responses@[1]);
            let step = handle_response(credentials, true, second);
            match step {
                DispatchStep::Complete(out) => (2, Ok(out)),
                DispatchStep::Fail(e) => (2, Err(e)),
                DispatchStep::Authenticate(_) => (
                    2,
                    Err(GremlinError::Generic("A second challenge is a failure".to_owned())),
                ),
            }
        },
    }
}

/// A challenge answered with success is invisible to the caller: when the
/// server answers a challenge reply with success, the cycle consumes exactly
/// two responses — so exactly two writes and two reads happened — and the
/// caller sees only the final result.
pub proof fn lemma_auth_retry_invisible(creds: Option<Credentials>, responses: Seq<Response>)
    requires
        creds is Some,
        responses.len() >= 2,
        responses[0].status.code == 407,
        responses[1].status.code == 200 || responses[1].status.code == 206,
    ensures
        cycle_spec(creds is Some, responses) == (
            2int,
            Ok::<Seq<Value>, (i16, Seq<char>)>(drain(response_data_model(responses[1]))),
        ),
{
}

/// A second consecutive challenge is a hard failure carrying the status
/// code and message verbatim, rather than a further retry.
pub proof fn lemma_second_challenge_refused(creds: Option<Credentials>, responses: Seq<Response>)
    requires
        creds is Some,
        responses.len() >= 2,
        responses[0].status.code == 407,
        responses[1].status.code == 407,
    ensures
        cycle_spec(creds is Some, responses) == (
            2int,
            Err::<Seq<Value>, (i16, Seq<char>)>((407, responses[1].status.message@)),
        ),
{
}

// ---------------------------------------------------------------------------
// The client: the decision state threaded through each call. The pooled
// transport that writes and reads frames lives outside the library and
// consults these functions.
// ---------------------------------------------------------------------------

/// A client bound to one wire format, with optional alias, credentials and
/// session. Cloning yields an independent value.
#[derive(Debug, PartialEq)]
pub struct GremlinClient {
    pub options: ConnectionOptions,
    pub session: Option<String>,
    pub session_closed: bool,
    pub alias: Option<String>,
}

pub type SessionedClient = GremlinClient;

impl Clone for GremlinClient {
    fn clone(&self) -> (r: Self)
        ensures
            r == *self,
    {
        GremlinClient {
            options: self.options.clone(),
            session: match &self.session {
                Some(s) => Some(s.clone()),
                None => None,
            },
            session_closed: self.session_closed,
            alias: match &self.alias {
                Some(s) => Some(s.clone()),
                None => None,
            },
        }
    }
}

/// The argument entries of an eval request: the script, the language tag,
/// the alias map, the bindings, and the session name when one is bound.
pub open spec fn eval_args_model(
    script: Seq<char>,
    alias: Option<String>,
    bindings: Seq<(Key, Value)>,
    session: Option<String>,
) -> Seq<(Key, Value)> {
    let base = seq![
        (Key::Str("gremlin"@), Value::Str(script)),
        (Key::Str("language"@), Value::Str("gremlin-groovy"@)),
        (
            Key::Str("aliases"@),
            Value::GMap(
                match alias {
                    Some(a) => seq![(Key::Str("g"@), Value::Str(a@))],
                    None => Seq::empty(),
                },
            ),
        ),
        (Key::Str("bindings"@), Value::GMap(bindings)),
    ];
    match session {
        Some(name) => base.push((Key::Str("session"@), Value::Str(name@))),
        None => base,
    }
}

impl GremlinClient {
    /// A fresh client over the given configuration, outside any session.
    pub fn new(options: ConnectionOptions) -> (r: GremlinClient)
        ensures
            r.options == options,
            r.session is None,
            !r.session_closed,
            r.alias is None,
    {
        GremlinClient { options, session: None, session_closed: false, alias: None }
    }

    /// A clone of this client bound to an alternate traversal-source alias.
    pub fn alias(&self, alias: String) -> (r: GremlinClient)
        ensures
            r.options == self.options,
            r.session == self.session,
            r.session_closed == self.session_closed,
            r.alias == Some(alias),
    {
        let mut cloned = self.clone();
        cloned.alias = Some(alias);
        cloned
    }

    /// A session-bound client over the same configuration. Its pool must
    /// hold exactly one connection, which the transport layer enforces.
    pub fn create_session(&self, name: String) -> (r: SessionedClient)
        ensures
            r.options == self.options,
            r.session == Some(name),
            !r.session_closed,
            r.alias is None,
    {
        GremlinClient {
            options: self.options.clone(),
            session: Some(name),
            session_closed: false,
            alias: None,
        }
    }

    /// Prepares an eval request for a script with bindings. A session-bound
    /// client routes through the `session` processor and injects the session
    /// name; a client whose session was closed refuses the call.
    pub fn execute(&self, script: String, bindings: Vec<(String, GValue)>) -> (r: GremlinResult<
        PreparedRequest,
    >)
        ensures
            self.session_closed ==> r matches Err(GremlinError::Generic(_)),
            !self.session_closed ==> (r matches Ok(pr) && pr.model().op == "eval"@
                && pr.model().processor == (if self.session is Some {
                "session"@
            } else {
                ""@
            }) && pr.model().args == eval_args_model(
                script@,
                self.alias,
                model_str_pairs(bindings@),
                self.session,
            )),
    {
        if self.session_closed {
            return Err(GremlinError::Generic("Session closed".to_owned()));
        }
        let mut alias_pairs: Vec<(crate::structure::GKey, GValue)> = Vec::new();
        match &self.alias {
            Some(a) => {
                alias_pairs.push(
                    (crate::structure::GKey::String("g".to_owned()), GValue::String(a.clone())),
                );
            },
            None => {},
        }
        proof {
            crate::structure::lemma_model_pairs(alias_pairs@);
            if self.alias is Some {
                assert(crate::structure::model_pairs(alias_pairs@) =~= seq![
                    (Key::Str("g"@), Value::Str(self.alias.unwrap()@)),
                ]);
            } else {
                assert(crate::structure::model_pairs(alias_pairs@) =~= Seq::<
                    (Key, Value),
                >::empty());
            }
        }
        let mut binding_pairs: Vec<(crate::structure::GKey, GValue)> = Vec::new();
        let ghost bindings_model = bindings@;
        let mut rest = bindings;
        let n = rest.len();
        let mut j: usize = 0;
        proof {
            crate::structure::lemma_model_str_pairs(bindings_model);
            crate::structure::lemma_model_pairs(binding_pairs@);
        }
        while j < n
            invariant
                j <= n,
                n == bindings_model.len(),
                rest@ == bindings_model.skip(j as int),
                crate::structure::model_pairs(binding_pairs@) == model_str_pairs(
                    bindings_model,
                ).take(j as int),
            decreases n - j,
        {
            proof {
                crate::structure::lemma_model_str_pairs(bindings_model);
            }
            let (k, v) = rest.remove(0);
            proof {
                assert(bindings_model.skip(j as int)[0] == bindings_model[j as int]);
                crate::structure::lemma_model_pairs_push(
                    binding_pairs@,
                    crate::structure::GKey::String(k),
                    v,
                );
                assert(crate::structure::model_pairs(binding_pairs@).push(
                    (Key::Str(k@), v.model()),
                ) =~= model_str_pairs(bindings_model).take(j as int + 1));
                assert(rest@ =~= bindings_model.skip(j as int + 1));
            }
            binding_pairs.push((crate::structure::GKey::String(k), v));
            j = j + 1;
        }
        proof {
            assert(model_str_pairs(bindings_model).take(n as int) =~= model_str_pairs(
                bindings_model,
            ));
        }
        let mut args: Vec<(String, GValue)> = Vec::new();
        args.push(("gremlin".to_owned(), GValue::String(script)));
        args.push(("language".to_owned(), GValue::String("gremlin-groovy".to_owned())));
        args.push(("aliases".to_owned(), GValue::GMap(alias_pairs)));
        args.push(("bindings".to_owned(), GValue::GMap(binding_pairs)));
        let processor: String;
        match &self.session {
            Some(name) => {
                args.push(("session".to_owned(), GValue::String(name.clone())));
                processor = "session".to_owned();
            },
            None => {
                processor = "".to_owned();
            },
        }
        proof {
            crate::structure::lemma_model_str_pairs(args@);
            assert(model_str_pairs(args@) =~= eval_args_model(
                script@,
                self.alias,
                model_str_pairs(bindings_model),
                self.session,
            ));
        }
        Ok(PreparedRequest { op: "eval".to_owned(), processor, args })
    }

    /// Prepares a traversal submission. The program is sent as the `gremlin`
    /// argument with the alias map (defaulting to `g`); a session-bound
    /// client routes through the `session` processor, and a closed one
    /// refuses the call.
    pub fn submit(&self, bytecode: crate::structure::Bytecode) -> (r: GremlinResult<
        PreparedRequest,
    >)
        ensures
            self.session_closed ==> r matches Err(GremlinError::Generic(_)),
            !self.session_closed ==> (r matches Ok(pr) && pr.model().op == "bytecode"@
                && pr.model().processor == (if self.session is Some {
                "session"@
            } else {
                "traversal"@
            }) && pr.model().args == submit_args_model(
                bytecode.model(),
                self.alias,
                self.session,
            )),
    {
        if self.session_closed {
            return Err(GremlinError::Generic("Session closed".to_owned()));
        }
        let ghost code_model = bytecode.model();
        let mut alias_pairs: Vec<(crate::structure::GKey, GValue)> = Vec::new();
        let alias_name: String = match &self.alias {
            Some(a) => a.clone(),
            None => "g".to_owned(),
        };
        alias_pairs.push((crate::structure::GKey::String("g".to_owned()), GValue::String(alias_name)));
        proof {
            crate::structure::lemma_model_pairs(alias_pairs@);
            if self.alias is Some {
                assert(crate::structure::model_pairs(alias_pairs@) =~= seq![
                    (Key::Str("g"@), Value::Str(self.alias.unwrap()@)),
                ]);
            } else {
                assert(crate::structure::model_pairs(alias_pairs@) =~= seq![
                    (Key::Str("g"@), Value::Str("g"@)),
                ]);
            }
        }
        let mut args: Vec<(String, GValue)> = Vec::new();
        args.push(("gremlin".to_owned(), GValue::Bytecode(bytecode)));
        args.push(("aliases".to_owned(), GValue::GMap(alias_pairs)));
        let processor: String;
        match &self.session {
            Some(name) => {
                args.push(("session".to_owned(), GValue::String(name.clone())));
                processor = "session".to_owned();
            },
            None => {
                processor = "traversal".to_owned();
            },
        }
        proof {
            crate::structure::lemma_model_str_pairs(args@);
            assert(model_str_pairs(args@) =~= submit_args_model(
                code_model,
                self.alias,
                self.session,
            ));
        }
        Ok(PreparedRequest { op: "bytecode".to_owned(), processor, args })
    }

    /// Prepares the dedicated close request for the bound session and
    /// invalidates this client: afterwards `execute` and `submit` refuse to
    /// run, and a second close fails without sending anything.
    pub fn close_session(&mut self) -> (r: GremlinResult<PreparedRequest>)
        ensures
            old(self).session matches Some(name) ==> (r matches Ok(pr) && pr.model().op
                == "close"@ && pr.model().processor == "session"@ && pr.model().args == seq![
                (Key::Str("session"@), Value::Str(name@)),
            ] && final(self).session is None && final(self).session_closed && final(self).options
                == old(self).options && final(self).alias == old(self).alias),
            old(self).session is None ==> (r matches Err(GremlinError::Generic(_)) && *final(self)
                == *old(self)),
    {
        let name = match &self.session {
            Some(name) => name.clone(),
            None => {
                return Err(GremlinError::Generic("No session to close".to_owned()));
            },
        };
        self.session = None;
        self.session_closed = true;
        let mut args: Vec<(String, GValue)> = Vec::new();
        args.push(("session".to_owned(), GValue::String(name)));
        proof {
            crate::structure::lemma_model_str_pairs(args@);
            assert(model_str_pairs(args@) =~= seq![
                (Key::Str("session"@), Value::Str(old(self).session.unwrap()@)),
            ]);
        }
        Ok(PreparedRequest { op: "close".to_owned(), processor: "session".to_owned(), args })
    }
}

/// The argument entries of a traversal submission.
pub open spec fn submit_args_model(
    code: crate::structure::Prog,
    alias: Option<String>,
    session: Option<String>,
) -> Seq<(Key, Value)> {
    let base = seq![
        (Key::Str("gremlin"@), Value::Bytecode(code)),
        (
            Key::Str("aliases"@),
            Value::GMap(
                seq![
                    (
                        Key::Str("g"@),
                        Value::Str(
                            match alias {
                                Some(a) => a@,
                                None => "g"@,
                            },
                        ),
                    ),
                ],
            ),
        ),
    ];
    match session {
        Some(name) => base.push((Key::Str("session"@), Value::Str(name@))),
        None => base,
    }
}

/// The drained results of one call, with the response that carried them.
#[derive(Debug, PartialEq)]
pub struct GResultSet {
    pub results: Vec<GValue>,
    pub response: Response,
}

impl GResultSet {
    pub fn new(results: Vec<GValue>, response: Response) -> (r: GResultSet)
        ensures
            r.results == results,
            r.response == response,
    {
        GResultSet { results, response }
    }

    /// Hands out the next drained result, in arrival order.
    pub fn next(&mut self) -> (r: Option<GValue>)
        ensures
            old(self).results@.len() > 0 ==> (r == Some(old(self).results@[0])
                && final(self).results@ == old(self).results@.skip(1)),
            old(self).results@.len() == 0 ==> (r is None
                && final(self).results@ == old(self).results@),
            final(self).response == old(self).response,
    {
        if self.results.len() > 0 {
            let item = self.results.remove(0);
            assert(self.results@ =~= old(self).results@.skip(1));
            Some(item)
        } else {
            None
        }
    }
}

} // verus!
