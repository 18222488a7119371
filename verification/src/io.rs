use vstd::prelude::*;

use crate::error::{GremlinError, GremlinResult};
use crate::graph_binary_v1::{RequestMessage, ResponseMessage};
use crate::graphson::{gson, gson_dec, read_graphson, text_enc_err, text_supported, write_graphson, Json};
use crate::message::{message_json, Message, ReponseStatus, RequestIdV2, Response, ResponseResult};
use crate::structure::{model_str_pairs, GKey, GValue, Uuid, Value};
use crate::binary::{dec_response, req_encodable, request_bytes};

verus! {

/// The wire encodings a client can speak.
#[derive(Debug, Clone, Copy, PartialEq, Eq, Structural)]
pub enum IoProtocol {
    GraphSONV2,
    GraphSONV3,
    GraphBinaryV1,
}

/// Whether a protocol is the third text-format version; the binary format
/// never consults this.
pub open spec fn proto_v3(p: IoProtocol) -> bool {
    p is GraphSONV3
}

pub open spec fn content_type_chars(p: IoProtocol) -> Seq<char> {
    match p {
        IoProtocol::GraphSONV2 => "application/vnd.gremlin-v2.0+json"@,
        IoProtocol::GraphSONV3 => "application/vnd.gremlin-v3.0+json"@,
        IoProtocol::GraphBinaryV1 => "application/vnd.graphbinary-v1.0"@,
    }
}

/// What a request turns into: binary frames are complete bytes; text frames
/// are a JSON value that still needs rendering to text and framing.
#[derive(Debug, PartialEq)]
pub enum RequestPayload {
    Bytes(Vec<u8>),
    Text(Json),
}

/// Relies on uuid's `Uuid::new_v4` for a fresh random request id; nothing is
/// promised of the value.
#[verifier::external_body]
fn new_request_id() -> (r: Uuid) {
    let (hi, lo) = uuid::Uuid::new_v4().as_u64_pair();
    Uuid { hi, lo }
}

/// The argument map of a request as a single value, with string keys.
pub open spec fn args_value(args: Seq<(String, GValue)>) -> Value {
    Value::GMap(model_str_pairs(args))
}

impl IoProtocol {
    pub fn content_type(&self) -> (r: &'static str)
        ensures
            r@ == content_type_chars(*self),
    {
        match self {
            IoProtocol::GraphSONV2 => "application/vnd.gremlin-v2.0+json",
            IoProtocol::GraphSONV3 => "application/vnd.gremlin-v3.0+json",
            IoProtocol::GraphBinaryV1 => "application/vnd.graphbinary-v1.0",
        }
    }

    /// Builds one request frame: the whole byte frame for the binary format,
    /// or the JSON value of the envelope for a text format. A fresh request
    /// id is drawn when none is supplied.
    pub fn build_message(
        &self,
        op: String,
        processor: String,
        args: Vec<(String, GValue)>,
        request_id: Option<Uuid>,
    ) -> (r: GremlinResult<(Uuid, RequestPayload)>)
        ensures
            request_id matches Some(id) ==> (r matches Ok(p) ==> p.0 == id),
            match r {
                Ok(p) => match p.1 {
                    RequestPayload::Bytes(b) => *self is GraphBinaryV1 && b@ == request_bytes(
                        p.0,
                        op@,
                        processor@,
                        model_str_pairs(args@),
                    ),
                    RequestPayload::Text(j) => !(*self is GraphBinaryV1) && j.model()
                        == message_json(
                        proto_v3(*self),
                        p.0,
                        op@,
                        processor@,
                        gson(args_value(args@), proto_v3(*self)),
                    ),
                },
                Err(e) => if *self is GraphBinaryV1 {
                    !req_encodable(op@, processor@, model_str_pairs(args@)) && (
                    e matches GremlinError::Cast(_))
                } else {
                    !text_supported(args_value(args@), proto_v3(*self)) && text_enc_err(e)
                },
            },
    {
        let id = match request_id {
            Some(id) => id,
            None => new_request_id(),
        };
        match self {
            IoProtocol::GraphBinaryV1 => {
                let msg = RequestMessage { request_id: id, op, processor, args };
                let mut buf: Vec<u8> = Vec::new();
                let r = msg.to_be_bytes(&mut buf);
                match r {
                    Ok(_) => Ok((id, RequestPayload::Bytes(buf))),
                    Err(e) => Err(e),
                }
            },
            _ => {
                let v3 = match self {
                    IoProtocol::GraphSONV3 => true,
                    _ => false,
                };
                let ghost args_model = args@;
                let mut pairs: Vec<(GKey, GValue)> = Vec::new();
                let mut rest = args;
                let n = rest.len();
                let mut j: usize = 0;
                proof {
                    crate::structure::lemma_model_str_pairs(args_model);
                    crate::structure::lemma_model_pairs(pairs@);
                }
                while j < n
                    invariant
                        j <= n,
                        n == args_model.len(),
                        rest@ == args_model.skip(j as int),
                        crate::structure::model_pairs(pairs@) == model_str_pairs(
                            args_model,
                        ).take(j as int),
                    decreases n - j,
                {
                    proof {
                        crate::structure::lemma_model_str_pairs(args_model);
                    }
                    let (k, v) = rest.remove(0);
                    proof {
                        assert(args_model.skip(j as int)[0] == args_model[j as int]);
                        crate::structure::lemma_model_pairs_push(pairs@, GKey::String(k), v);
                        assert(crate::structure::model_pairs(pairs@).push(
                            (crate::structure::Key::Str(k@), v.model()),
                        ) =~= model_str_pairs(args_model).take(j as int + 1));
                        assert(rest@ =~= args_model.skip(j as int + 1));
                    }
                    pairs.push((GKey::String(k), v));
                    j = j + 1;
                }
                proof {
                    assert(model_str_pairs(args_model).take(n as int) =~= model_str_pairs(
                        args_model,
                    ));
                }
                let map_value = GValue::GMap(pairs);
                let r = write_graphson(&map_value, v3);
                let args_json = match r {
                    Ok(jv) => jv,
                    Err(e) => {
                        return Err(e);
                    },
                };
                let message = if v3 {
                    Message::V3 { request_id: id, op, processor, args: args_json }
                } else {
                    Message::V2 {
                        request_id: RequestIdV2 { id_type: "g:UUID".to_owned(), value: id },
                        op,
                        processor,
                        args: args_json,
                    }
                };
                let jm = crate::message::message_to_json(message);
                Ok((id, RequestPayload::Text(jm)))
            },
        }
    }

    /// Decodes one JSON value into a result value; a JSON null stands for no
    /// data.
    pub fn read(&self, value: &Json) -> (r: GremlinResult<Option<GValue>>)
        requires
            !(*self is GraphBinaryV1),
        ensures
            match r {
                Ok(Some(v)) => gson_dec(value.model(), proto_v3(*self)) == Some(v.model()) && !(
                value.model() is Null),
                Ok(None) => value.model() is Null,
                Err(e) => !(value.model() is Null) && gson_dec(value.model(), proto_v3(*self))
                    is None && e matches GremlinError::Cast(_),
            },
    {
        match value {
            Json::Null => Ok(None),
            _ => {
                let v3 = match self {
                    IoProtocol::GraphSONV3 => true,
                    _ => false,
                };
                let r = read_graphson(value, v3);
                match r {
                    Ok(v) => Ok(Some(v)),
                    Err(e) => Err(e),
                }
            },
        }
    }

    /// Reads a binary response frame into a response.
    pub fn read_response(&self, response: &Vec<u8>) -> (r: GremlinResult<Response>)
        requires
            *self is GraphBinaryV1,
        ensures
            match r {
                Ok(resp) => dec_response(response@) matches Some(m) && resp.request_id
                    == m.request_id && resp.status.code == m.status_code && resp.status.message@
                    == m.status_message && (match resp.result.data {
                    Some(v) => m.result_data == Some(v.model()),
                    None => m.result_data is None,
                }),
                Err(e) => dec_response(response@) is None && e matches GremlinError::Cast(_),
            },
    {
        let r = ResponseMessage::from_be_bytes(response.as_slice());
        match r {
            Ok(m) => Ok(
                Response {
                    request_id: m.request_id,
                    result: ResponseResult { data: m.result_data },
                    status: ReponseStatus { code: m.status_code, message: m.status_message },
                },
            ),
            Err(e) => Err(e),
        }
    }

    /// Reads a text response envelope from its parsed JSON form: the request
    /// id, the status object, and the data under the result object.
    pub fn read_response_json(&self, j: &Json) -> (r: GremlinResult<Response>)
        requires
            !(*self is GraphBinaryV1),
        ensures
            r matches Ok(resp) ==> (text_response_of(j.model(), proto_v3(*self)) matches Some(m)
                && resp.request_id == m.0 && resp.status.code == m.1 && resp.status.message@
                == m.2 && (match resp.result.data {
                Some(v) => m.3 == Some(v.model()),
                None => m.3 is None,
            })),
            r is Err ==> text_response_of(j.model(), proto_v3(*self)) is None,
    {
        let entries = match j {
            Json::Obj(entries) => entries,
            _ => {
                return Err(GremlinError::Cast("A response must be an object".to_owned()));
            },
        };
        let id_str = match crate::message::obj_get(entries, "requestId") {
            Some(Json::Str(cs)) => cs,
            _ => {
                return Err(GremlinError::Cast("Missing request id".to_owned()));
            },
        };
        let id = match Uuid::from_text(id_str.as_str()) {
            Ok(u) => u,
            Err(e) => {
                return Err(e);
            },
        };
        let status = match crate::message::obj_get(entries, "status") {
            Some(st) => match ReponseStatus::from_json(st) {
                Ok(st) => st,
                Err(e) => {
                    return Err(e);
                },
            },
            None => {
                return Err(GremlinError::Cast("Missing status".to_owned()));
            },
        };
        let result_obj = match crate::message::obj_get(entries, "result") {
            Some(Json::Obj(res)) => res,
            _ => {
                return Err(GremlinError::Cast("Missing result".to_owned()));
            },
        };
        let data = match crate::message::obj_get(result_obj, "data") {
            Some(dj) => {
                let rr = self.read(dj);
                match rr {
                    Ok(d) => d,
                    Err(e) => {
                        return Err(e);
                    },
                }
            },
            None => None,
        };
        Ok(Response { request_id: id, result: ResponseResult { data }, status })
    }
}

/// What a well-formed text response envelope holds: the request id, the
/// 16-bit status code, the status message, and the decoded result data.
pub open spec fn text_response_of(j: crate::graphson::JsonModel, v3: bool) -> Option<
    (Uuid, i16, Seq<char>, Option<Value>),
> {
    match j {
        crate::graphson::JsonModel::Obj(entries) => {
            let idj = crate::message::jlookup(entries, "requestId"@);
            match idj {
                Some(crate::graphson::JsonModel::Str(cs)) => match crate::graphson::uuid_of_chars(
                    cs,
                ) {
                    Some(id) => {
                        let stj = crate::message::jlookup(entries, "status"@);
                        match stj {
                            Some(st) => match crate::message::status_of_json(st) {
                                Some((code, msg)) => {
                                    let resj = crate::message::jlookup(entries, "result"@);
                                    match resj {
                                        Some(crate::graphson::JsonModel::Obj(res)) => {
                                            let dj = crate::message::jlookup(res, "data"@);
                                            match dj {
                                                None => Some((id, code, msg, None)),
                                                Some(crate::graphson::JsonModel::Null) => Some(
                                                    (id, code, msg, None),
                                                ),
                                                Some(d) => match gson_dec(d, v3) {
                                                    Some(v) => Some((id, code, msg, Some(v))),
                                                    None => None,
                                                },
                                            }
                                        },
                                        _ => None,
                                    }
                                },
                                None => None,
                            },
                            None => None,
                        }
                    },
                    None => None,
                },
                _ => None,
            }
        },
        _ => None,
    }
}

} // verus!
