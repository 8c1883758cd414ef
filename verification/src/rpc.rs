//! The JSON-RPC envelope: request and response wire types, the standard
//! error codes, and their readings from and renderings to [`Json`]
//! documents.
//!
//! A response carries exactly one of `result` and `error`, and always
//! echoes the identifier of its request; a request whose bytes cannot be
//! decoded is answered with a null identifier, since nothing else is known
//! of it.

use crate::error::GatewayError;
use crate::json::{sp_get, Json, JsonV};
use crate::json_ser::{json_to_string, sp_ser};
use vstd::prelude::*;

verus! {

/// Error code for undecodable request bytes.
pub const CODE_PARSE_ERROR: i32 = -32700;

/// Error code for a method the dispatcher does not know.
pub const CODE_METHOD_NOT_FOUND: i32 = -32601;

/// Error code for invalid tool parameters.
pub const CODE_INVALID_PARAMS: i32 = -32602;

/// Error code for an application-level tool failure.
pub const CODE_APP_ERROR: i32 = -32000;

/// Mathematical view of an RPC error object.
pub ghost struct RpcErrV {
    pub code: int,
    pub message: Seq<char>,
    pub data: Option<JsonV>,
}

/// An RPC error object: a numeric code, a human-readable message, and
/// optional structured data.
#[derive(Debug)]
pub struct RpcErr {
    pub code: i32,
    pub message: String,
    pub data: Option<Json>,
}

impl View for RpcErr {
    type V = RpcErrV;

    open spec fn view(&self) -> RpcErrV {
        RpcErrV {
            code: self.code as int,
            message: self.message@,
            data: match self.data {
                Some(d) => Some(d@),
                None => None,
            },
        }
    }
}

/// Mathematical view of a request envelope.
pub ghost struct RpcReqV {
    pub jsonrpc: Seq<char>,
    pub id: JsonV,
    pub method: Seq<char>,
    pub params: JsonV,
}

/// A decoded request envelope.  The identifier is opaque and only echoed;
/// it defaults to null when absent, as do the parameters.
#[derive(Debug)]
pub struct RpcReq {
    pub jsonrpc: String,
    pub id: Json,
    pub method: String,
    pub params: Json,
}

impl View for RpcReq {
    type V = RpcReqV;

    open spec fn view(&self) -> RpcReqV {
        RpcReqV { jsonrpc: self.jsonrpc@, id: self.id@, method: self.method@, params: self.params@ }
    }
}

/// Mathematical view of a response envelope.
pub ghost struct RpcRespV {
    pub jsonrpc: Seq<char>,
    pub id: JsonV,
    pub result: Option<JsonV>,
    pub error: Option<RpcErrV>,
}

/// A response envelope: the echoed identifier and exactly one of a result
/// or an error.
#[derive(Debug)]
pub struct RpcResp {
    pub jsonrpc: String,
    pub id: Json,
    pub result: Option<Json>,
    pub error: Option<RpcErr>,
}

impl View for RpcResp {
    type V = RpcRespV;

    open spec fn view(&self) -> RpcRespV {
        RpcRespV {
            jsonrpc: self.jsonrpc@,
            id: self.id@,
            result: match self.result {
                Some(r) => Some(r@),
                None => None,
            },
            error: match &self.error {
                Some(e) => Some(e@),
                None => None,
            },
        }
    }
}

impl RpcRespV {
    /// A response carries exactly one of a result and an error, under the
    /// fixed protocol version tag.
    pub open spec fn wf(self) -> bool {
        &&& (self.result is Some) <==> (self.error is None)
        &&& self.jsonrpc == "2.0"@
    }
}

/// The view of a successful response.
pub open spec fn sp_ok_resp(id: JsonV, result: JsonV) -> RpcRespV {
    RpcRespV { jsonrpc: "2.0"@, id: id, result: Some(result), error: None }
}

/// The view of an error response without data.
pub open spec fn sp_err_resp(id: JsonV, code: int, message: Seq<char>) -> RpcRespV {
    RpcRespV {
        jsonrpc: "2.0"@,
        id: id,
        result: None,
        error: Some(RpcErrV { code: code, message: message, data: None }),
    }
}

/// A successful response.
pub fn ok(id: Json, result: Json) -> (r: RpcResp)
    ensures
        r@ == sp_ok_resp(id@, result@),
        r@.wf(),
{
    RpcResp { jsonrpc: String::from_str("2.0"), id, result: Some(result), error: None }
}

/// An error response.
pub fn err(id: Json, code: i32, message: String, data: Option<Json>) -> (r: RpcResp)
    ensures
        r@ == (RpcRespV {
            jsonrpc: "2.0"@,
            id: id@,
            result: None,
            error: Some(
                RpcErrV {
                    code: code as int,
                    message: message@,
                    data: match data {
                        Some(d) => Some(d@),
                        None => None,
                    },
                },
            ),
        }),
        r@.wf(),
{
    RpcResp {
        jsonrpc: String::from_str("2.0"),
        id,
        result: None,
        error: Some(RpcErr { code, message, data }),
    }
}

/// An error response without data.
pub fn error(id: Json, code: i32, message: String) -> (r: RpcResp)
    ensures
        r@ == sp_err_resp(id@, code as int, message@),
        r@.wf(),
{
    err(id, code, message, None)
}

/// The response to bytes that could not be decoded: a null identifier,
/// since the request's own cannot be known, and the parse-error code.
pub fn parse_error(message: String) -> (r: RpcResp)
    ensures
        r@ == sp_err_resp(JsonV::Null, CODE_PARSE_ERROR as int, message@),
        r@.wf(),
{
    err(Json::Null, CODE_PARSE_ERROR, message, None)
}

/// An application-level error response carrying a gateway error's
/// message.
pub fn from_gateway_error(id: Json, e: GatewayError) -> (r: RpcResp)
    ensures
        r@ == sp_err_resp(id@, CODE_APP_ERROR as int, e.spec_message()),
        r@.wf(),
{
    let m = e.message();
    error(id, CODE_APP_ERROR, m)
}

/// The reading of a request envelope out of a decoded document:
/// `jsonrpc` and `method` must be present as strings; the identifier and
/// parameters default to null.
pub open spec fn sp_req_of(v: JsonV) -> Option<RpcReqV> {
    match (sp_get(v, "jsonrpc"@), sp_get(v, "method"@)) {
        (Some(JsonV::Str(ver)), Some(JsonV::Str(m))) => Some(
            RpcReqV {
                jsonrpc: ver,
                method: m,
                id: match sp_get(v, "id"@) {
                    Some(x) => x,
                    None => JsonV::Null,
                },
                params: match sp_get(v, "params"@) {
                    Some(x) => x,
                    None => JsonV::Null,
                },
            },
        ),
        _ => None,
    }
}

/// Read a request envelope out of a decoded document.
pub fn req_from_json(v: &Json) -> (r: Option<RpcReq>)
    ensures
        match r {
            Some(rq) => sp_req_of(v@) == Some(rq@),
            None => sp_req_of(v@) is None,
        },
{
    let ver = match v.get_str("jsonrpc") {
        Some(s) => s.clone(),
        None => {
            return None;
        },
    };
    let method = match v.get_str("method") {
        Some(s) => s.clone(),
        None => {
            return None;
        },
    };
    let id = match v.get("id") {
        Some(x) => x.deep_clone(),
        None => Json::Null,
    };
    let params = match v.get("params") {
        Some(x) => x.deep_clone(),
        None => Json::Null,
    };
    Some(RpcReq { jsonrpc: ver, id, method, params })
}

/// The document form of an error object: `code`, `message`, and `data`
/// when present, in that order.
pub open spec fn sp_err_json(e: RpcErrV) -> JsonV {
    JsonV::Obj(
        seq![("code"@, JsonV::Int(e.code)), ("message"@, JsonV::Str(e.message))] + match e.data {
            Some(d) => seq![("data"@, d)],
            None => Seq::empty(),
        },
    )
}

/// The document form of a response: the protocol tag, the identifier,
/// then its result or its error.
pub open spec fn sp_resp_json(r: RpcRespV) -> JsonV {
    JsonV::Obj(
        seq![("jsonrpc"@, JsonV::Str(r.jsonrpc)), ("id"@, r.id)] + (match r.result {
            Some(v) => seq![("result"@, v)],
            None => Seq::empty(),
        }) + (match r.error {
            Some(e) => seq![("error"@, sp_err_json(e))],
            None => Seq::empty(),
        }),
    )
}

/// The single line a response is sent as.
pub open spec fn sp_resp_line(r: RpcRespV) -> Seq<char> {
    sp_ser(sp_resp_json(r))
}

impl RpcResp {
    /// The document form of the response.
    pub fn to_json(&self) -> (r: Json)
        ensures
            r@ == sp_resp_json(self@),
    {
        let mut members: Vec<(String, Json)> = Vec::new();
        members.push((String::from_str("jsonrpc"), Json::Str(self.jsonrpc.clone())));
        members.push((String::from_str("id"), self.id.deep_clone()));
        match &self.result {
            Some(v) => {
                members.push((String::from_str("result"), v.deep_clone()));
            },
            None => {},
        }
        match &self.error {
            Some(e) => {
                let mut emembers: Vec<(String, Json)> = Vec::new();
                emembers.push((String::from_str("code"), Json::Int(e.code as i64)));
                emembers.push((String::from_str("message"), Json::Str(e.message.clone())));
                match &e.data {
                    Some(d) => {
                        emembers.push((String::from_str("data"), d.deep_clone()));
                    },
                    None => {},
                }
                proof {
                    lemma_err_members(emembers@, e@);
                }
                members.push((String::from_str("error"), Json::Obj(emembers)));
            },
            None => {},
        }
        proof {
            lemma_resp_members(members@, self@);
        }
        Json::Obj(members)
    }

    /// The response as one line of text.
    pub fn to_line(&self) -> (s: String)
        ensures
            s@ == sp_resp_line(self@),
    {
        let j = self.to_json();
        json_to_string(&j)
    }
}

/// The member vector built for an error object views to its document
/// form.
proof fn lemma_err_members(ms: Seq<(String, Json)>, e: RpcErrV)
    requires
        ms.len() == 2 + (if e.data is Some {
            1int
        } else {
            0int
        }),
        ms[0].0@ == "code"@,
        ms[0].1@ == JsonV::Int(e.code),
        ms[1].0@ == "message"@,
        ms[1].1@ == JsonV::Str(e.message),
        e.data matches Some(d) ==> ms[2].0@ == "data"@ && ms[2].1@ == d,
    ensures
        JsonV::Obj(crate::json::json_view_members(ms)) == sp_err_json(e),
{
    crate::json::lemma_view_members_len(ms);
    assert(crate::json::json_view_members(ms) =~= seq![
        ("code"@, JsonV::Int(e.code)),
        ("message"@, JsonV::Str(e.message)),
    ] + (match e.data {
        Some(d) => seq![("data"@, d)],
        None => Seq::empty(),
    }));
}

/// The member vector built for a response views to its document form.
proof fn lemma_resp_members(ms: Seq<(String, Json)>, r: RpcRespV)
    requires
        ms.len() == 2 + (if r.result is Some {
            1int
        } else {
            0int
        }) + (if r.error is Some {
            1int
        } else {
            0int
        }),
        ms[0].0@ == "jsonrpc"@,
        ms[0].1@ == JsonV::Str(r.jsonrpc),
        ms[1].0@ == "id"@,
        ms[1].1@ == r.id,
        r.result matches Some(v) ==> ms[2].0@ == "result"@ && ms[2].1@ == v,
        r.error matches Some(e) ==> {
            let k = if r.result is Some {
                3int
            } else {
                2int
            };
            ms[k].0@ == "error"@ && ms[k].1@ == sp_err_json(e)
        },
    ensures
        JsonV::Obj(crate::json::json_view_members(ms)) == sp_resp_json(r),
{
    crate::json::lemma_view_members_len(ms);
    assert(crate::json::json_view_members(ms) =~= seq![
        ("jsonrpc"@, JsonV::Str(r.jsonrpc)),
        ("id"@, r.id),
    ] + (match r.result {
        Some(v) => seq![("result"@, v)],
        None => Seq::empty(),
    }) + (match r.error {
        Some(e) => seq![("error"@, sp_err_json(e))],
        None => Seq::empty(),
    }));
}

/// Mathematical view of the server identity.
pub ghost struct ServerInfoV {
    pub name: Seq<char>,
    pub version: Seq<char>,
}

/// The server identity reported by `initialize`.
#[derive(Debug, Clone)]
pub struct ServerInfo {
    pub name: String,
    pub version: String,
}

impl View for ServerInfo {
    type V = ServerInfoV;

    open spec fn view(&self) -> ServerInfoV {
        ServerInfoV { name: self.name@, version: self.version@ }
    }
}

/// Mathematical view of the `initialize` result.
pub ghost struct InitializeResultV {
    pub server_info: ServerInfoV,
}

/// The result of the `initialize` method.
#[derive(Debug, Clone)]
pub struct InitializeResult {
    pub server_info: ServerInfo,
}

impl View for InitializeResult {
    type V = InitializeResultV;

    open spec fn view(&self) -> InitializeResultV {
        InitializeResultV { server_info: self.server_info@ }
    }
}

/// The document form of the `initialize` result.
pub open spec fn sp_initialize_result_json(r: InitializeResultV) -> JsonV {
    JsonV::Obj(
        seq![
            (
                "server_info"@,
                JsonV::Obj(
                    seq![
                        ("name"@, JsonV::Str(r.server_info.name)),
                        ("version"@, JsonV::Str(r.server_info.version)),
                    ],
                ),
            ),
        ],
    )
}

impl InitializeResult {
    /// The document form of the result.
    pub fn to_json(&self) -> (r: Json)
        ensures
            r@ == sp_initialize_result_json(self@),
    {
        let mut inner: Vec<(String, Json)> = Vec::new();
        inner.push((String::from_str("name"), Json::Str(self.server_info.name.clone())));
        inner.push((String::from_str("version"), Json::Str(self.server_info.version.clone())));
        proof {
            crate::json::lemma_view_members_len(inner@);
            assert(inner@[0].0@ == "name"@ && inner@[0].1@ == JsonV::Str(self.server_info.name@));
            assert(inner@[1].0@ == "version"@ && inner@[1].1@ == JsonV::Str(
                self.server_info.version@,
            ));
            assert(crate::json::json_view_members(inner@) =~= seq![
                ("name"@, JsonV::Str(self.server_info.name@)),
                ("version"@, JsonV::Str(self.server_info.version@)),
            ]);
        }
        let mut outer: Vec<(String, Json)> = Vec::new();
        outer.push((String::from_str("server_info"), Json::Obj(inner)));
        proof {
            crate::json::lemma_view_members_len(outer@);
            assert(crate::json::json_view_members(outer@) =~= seq![
                (
                    "server_info"@,
                    JsonV::Obj(
                        seq![
                            ("name"@, JsonV::Str(self.server_info.name@)),
                            ("version"@, JsonV::Str(self.server_info.version@)),
                        ],
                    ),
                ),
            ]);
        }
        Json::Obj(outer)
    }
}

} // verus!
