use vstd::prelude::*;

use crate::graphson::{
    lemma_model_jobj, model_jobj, tagged, uuid_chars, Json, JsonModel,
};
use crate::structure::{GValue, Uuid};

verus! {

/// A request id in the version-two text envelope: the tag name and the id.
#[derive(Debug, PartialEq)]
pub struct RequestIdV2 {
    pub id_type: String,
    pub value: Uuid,
}

/// A request envelope for the text formats, one variant per format version.
#[derive(Debug, PartialEq)]
pub enum Message<T> {
    V1 { request_id: Uuid, op: String, processor: String, args: T },
    V2 { request_id: RequestIdV2, op: String, processor: String, args: T },
    V3 { request_id: Uuid, op: String, processor: String, args: T },
}

pub open spec fn message_id<T>(m: Message<T>) -> Uuid {
    match m {
        Message::V1 { request_id, .. } => request_id,
        Message::V2 { request_id, .. } => request_id.value,
        Message::V3 { request_id, .. } => request_id,
    }
}

impl<T> Message<T> {
    /// The request id of this envelope, whichever variant holds it.
    pub fn id(&self) -> (r: &Uuid)
        ensures
            *r == message_id(*self),
    {
        match self {
            Message::V1 { request_id, .. } => request_id,
            Message::V2 { request_id, .. } => &request_id.value,
            Message::V3 { request_id, .. } => request_id,
        }
    }
}

/// The status line of a response: the code and its message.
#[derive(Debug, PartialEq)]
pub struct ReponseStatus {
    pub code: i16,
    pub message: String,
}

/// The result half of a response.
#[derive(Debug, PartialEq)]
pub struct Response {
    pub request_id: Uuid,
    pub result: ResponseResult,
    pub status: ReponseStatus,
}

#[derive(Debug, PartialEq)]
pub struct ResponseResult {
    pub data: Option<GValue>,
}

/// The JSON wire shape of a text request envelope: the version-two id is
/// tagged, the version-three id is a bare string.
pub open spec fn message_json(v3: bool, id: Uuid, op: Seq<char>, processor: Seq<char>, args: JsonModel) -> JsonModel {
    JsonModel::Obj(
        seq![
            (
                "requestId"@,
                if v3 {
                    JsonModel::Str(uuid_chars(id))
                } else {
                    tagged("g:UUID"@, JsonModel::Str(uuid_chars(id)))
                },
            ),
            ("op"@, JsonModel::Str(op)),
            ("processor"@, JsonModel::Str(processor)),
            ("args"@, args),
        ],
    )
}

/// Renders a text request envelope into the JSON model.
pub fn message_to_json(m: Message<Json>) -> (r: Json)
    ensures
        m matches Message::V2 { request_id, op, processor, args } ==> (request_id.id_type@
            == "g:UUID"@ ==> r.model() == message_json(
            false,
            message_id(m),
            op@,
            processor@,
            args.model(),
        )),
        m matches Message::V3 { request_id, op, processor, args } ==> r.model() == message_json(
            true,
            message_id(m),
            op@,
            processor@,
            args.model(),
        ),
{
    match m {
        Message::V1 { request_id, op, processor, args } => {
            let mut entries: Vec<(String, Json)> = Vec::new();
            entries.push(("requestId".to_owned(), Json::Str(request_id.to_text())));
            entries.push(("op".to_owned(), Json::Str(op)));
            entries.push(("processor".to_owned(), Json::Str(processor)));
            entries.push(("args".to_owned(), args));
            proof {
                lemma_model_jobj(entries@);
            }
            Json::Obj(entries)
        },
        Message::V2 { request_id, op, processor, args } => {
            let ghost idt = request_id.id_type@;
            let ghost idv = request_id.value;
            let mut idobj: Vec<(String, Json)> = Vec::new();
            idobj.push(("@value".to_owned(), Json::Str(request_id.value.to_text())));
            idobj.insert(0, ("@type".to_owned(), Json::Str(request_id.id_type)));
            proof {
                lemma_model_jobj(idobj@);
            }
            let ghost idm = model_jobj(idobj@);
            let mut entries: Vec<(String, Json)> = Vec::new();
            entries.push(("requestId".to_owned(), Json::Obj(idobj)));
            entries.push(("op".to_owned(), Json::Str(op)));
            entries.push(("processor".to_owned(), Json::Str(processor)));
            entries.push(("args".to_owned(), args));
            proof {
                lemma_model_jobj(entries@);
                if idt == "g:UUID"@ {
                    assert(idm =~= tagged("g:UUID"@, JsonModel::Str(uuid_chars(idv)))->Obj_0);
                    assert(model_jobj(entries@) =~= message_json(
                        false,
                        idv,
                        op@,
                        processor@,
                        args.model(),
                    )->Obj_0);
                }
            }
            Json::Obj(entries)
        },
        Message::V3 { request_id, op, processor, args } => {
            let mut entries: Vec<(String, Json)> = Vec::new();
            entries.push(("requestId".to_owned(), Json::Str(request_id.to_text())));
            entries.push(("op".to_owned(), Json::Str(op)));
            entries.push(("processor".to_owned(), Json::Str(processor)));
            entries.push(("args".to_owned(), args));
            proof {
                lemma_model_jobj(entries@);
                assert(model_jobj(entries@) =~= message_json(
                    true,
                    request_id,
                    op@,
                    processor@,
                    args.model(),
                )->Obj_0);
            }
            Json::Obj(entries)
        },
    }
}

/// The first value under a key in a JSON object, if any.
pub open spec fn jlookup(entries: Seq<(Seq<char>, JsonModel)>, key: Seq<char>) -> Option<JsonModel>
    decreases entries,
{
    if entries.len() == 0 {
        None
    } else if entries[0].0 == key {
        Some(entries[0].1)
    } else {
        jlookup(entries.skip(1), key)
    }
}

/// Finds the first entry under `key`.
pub fn obj_get<'a>(entries: &'a Vec<(String, Json)>, key: &str) -> (r: Option<&'a Json>)
    ensures
        match r {
            Some(j) => jlookup(model_jobj(entries@), key@) == Some(j.model()),
            None => jlookup(model_jobj(entries@), key@) is None,
        },
{
    proof {
        lemma_model_jobj(entries@);
    }
    let ghost m = model_jobj(entries@);
    proof {
        assert(m.skip(0int) =~= m);
    }
    let n = entries.len();
    let mut i: usize = 0;
    while i < n
        invariant
            i <= n,
            n == entries@.len(),
            m == model_jobj(entries@),
            m.len() == n,
            forall|k: int| 0 <= k < n ==> m[k] == (entries@[k].0@, entries@[k].1.model()),
            jlookup(m.skip(i as int), key@) is Some ==> jlookup(m, key@) == jlookup(
                m.skip(i as int),
                key@,
            ),
            jlookup(m.skip(i as int), key@) is None ==> jlookup(m, key@) is None,
        decreases n - i,
    {
        proof {
            crate::binary::lemma_skip_skip(m, i as int, 1);
            assert(m.skip(i as int)[0] == m[i as int]);
        }
        if entries[i].0 == key.to_owned() {
            return Some(&entries[i].1);
        }
        i = i + 1;
    }
    proof {
        assert(m.skip(n as int) =~= Seq::<(Seq<char>, JsonModel)>::empty());
    }
    None
}

/// What a well-formed textual status object holds: a code within 16 bits,
/// and a message that may be absent or null, both reading as the empty
/// string.
pub open spec fn status_of_json(j: JsonModel) -> Option<(i16, Seq<char>)> {
    match j {
        JsonModel::Obj(entries) => {
            let code = jlookup(entries, "code"@);
            match code {
                Some(JsonModel::Int(c)) => if -32768 <= c <= 32767 {
                    match jlookup(entries, "message"@) {
                        None => Some((c as i16, Seq::empty())),
                        Some(JsonModel::Null) => Some((c as i16, Seq::empty())),
                        Some(JsonModel::Str(msg)) => Some((c as i16, msg)),
                        Some(_) => None,
                    }
                } else {
                    None
                },
                _ => None,
            }
        },
        _ => None,
    }
}

impl ReponseStatus {
    /// Reads a status object: the code is required and narrowed to 16 bits;
    /// a missing or null message reads as the empty string.
    pub fn from_json(j: &Json) -> (r: crate::error::GremlinResult<ReponseStatus>)
        ensures
            match r {
                Ok(st) => status_of_json(j.model()) == Some((st.code, st.message@)),
                Err(e) => status_of_json(j.model()) is None && (
                e matches crate::error::GremlinError::Cast(_)),
            },
    {
        let entries = match j {
            Json::Obj(entries) => entries,
            _ => {
                return Err(
                    crate::error::GremlinError::Cast("A status must be an object".to_owned()),
                );
            },
        };
        let code: i64 = match obj_get(entries, "code") {
            Some(Json::Int(c)) => *c,
            _ => {
                return Err(crate::error::GremlinError::Cast("Missing status code".to_owned()));
            },
        };
        if code < -32768 || code > 32767 {
            return Err(
                crate::error::GremlinError::Cast(
                    "Status code does not fit in 16 bits".to_owned(),
                ),
            );
        }
        let message: String = match obj_get(entries, "message") {
            None => String::new(),
            Some(Json::Null) => String::new(),
            Some(Json::Str(msg)) => msg.clone(),
            Some(_) => {
                return Err(
                    crate::error::GremlinError::Cast("Malformed status message".to_owned()),
                );
            },
        };
        Ok(ReponseStatus { code: code as i16, message })
    }
}

} // verus!
