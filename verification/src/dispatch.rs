//! Method dispatch: the routing that turns one incoming JSON-RPC
//! envelope into one outgoing envelope by consulting the registry.
//!
//! Dispatch never fails: every path yields a well-formed response, or
//! hands back the remote request a tool call needs, to be finished with
//! the outcome of that request.  Undecodable input yields a parse-error
//! response with a null identifier; an unrecognized method a
//! method-not-found error naming the method.

use crate::gaelspell::sp_corrections_result_json;
use crate::gramadoir::sp_issues_result_json;
use crate::json::{sp_get, Json, JsonV};
use crate::json_parse::{parse_json, sp_parse_json};
use crate::registry::{sp_call_tool, ToolRegistry};
use crate::remote::{RemoteOutcome, RemoteOutcomeV, RemoteRequest, RemoteRequestV};
use crate::rpc::{
    error, ok, parse_error, sp_err_resp, sp_ok_resp, sp_req_of, sp_resp_line, RpcReq, RpcReqV,
    RpcResp, RpcRespV, CODE_APP_ERROR, CODE_METHOD_NOT_FOUND,
};
use crate::tool::{sp_tool_description, sp_tool_name, sp_tool_schema, ToolActionV, ToolImpl};
use vstd::prelude::*;

verus! {

/// The document form of one tools-list entry.
pub open spec fn sp_tool_entry_json(t: ToolImpl) -> JsonV {
    JsonV::Obj(
        seq![
            ("name"@, JsonV::Str(sp_tool_name(t))),
            ("description"@, JsonV::Str(sp_tool_description(t))),
            ("inputSchema"@, sp_tool_schema(t)),
        ],
    )
}

/// The document form of the tools listing: the registered tools in
/// order, each with its name, description and input schema.
pub open spec fn sp_tools_list_json(tools: Seq<ToolImpl>) -> JsonV {
    JsonV::Obj(
        seq![
            ("tools"@, JsonV::Arr(Seq::new(tools.len(), |i: int| sp_tool_entry_json(tools[i])))),
        ],
    )
}

/// The static identity `initialize` reports.
pub open spec fn sp_initialize_json() -> JsonV {
    JsonV::Obj(
        seq![
            (
                "serverInfo"@,
                JsonV::Obj(
                    seq![
                        ("name"@, JsonV::Str("irish-mcp-gateway"@)),
                        ("version"@, JsonV::Str("0.1.0"@)),
                    ],
                ),
            ),
            ("capabilities"@, JsonV::Obj(Seq::empty())),
        ],
    )
}

/// The tool-call arguments: `params.arguments`, defaulting to null.
pub open spec fn sp_args(params: JsonV) -> JsonV {
    match sp_get(params, "arguments"@) {
        Some(a) => a,
        None => JsonV::Null,
    }
}

/// The tool name of a call: `params.name`, which must be a string.
pub open spec fn sp_name_arg(params: JsonV) -> Option<Seq<char>> {
    match sp_get(params, "name"@) {
        Some(JsonV::Str(n)) => Some(n),
        _ => None,
    }
}

/// Mathematical view of one dispatch step.
pub ghost enum DispatchStepV {
    Done(RpcRespV),
    Grammar { id: JsonV, request: RemoteRequestV },
    Spell { id: JsonV, request: RemoteRequestV },
}

/// One dispatch step: the finished response, or the remote request a
/// tool call needs together with the identifier to answer under.
#[derive(Debug)]
pub enum DispatchStep {
    Done(RpcResp),
    Grammar { id: Json, request: RemoteRequest },
    Spell { id: Json, request: RemoteRequest },
}

impl View for DispatchStep {
    type V = DispatchStepV;

    open spec fn view(&self) -> DispatchStepV {
        match self {
            DispatchStep::Done(r) => DispatchStepV::Done(r@),
            DispatchStep::Grammar { id, request } => DispatchStepV::Grammar {
                id: id@,
                request: request@,
            },
            DispatchStep::Spell { id, request } => DispatchStepV::Spell {
                id: id@,
                request: request@,
            },
        }
    }
}

/// What dispatch decides for a decoded request: `initialize` and
/// `shutdown` answer statically, `tools.list` (and its alias) lists the
/// registry, `tools.call` (and its alias) validates the name and calls
/// the tool, and any other method is answered with the method-not-found
/// code and a message naming it.
pub open spec fn sp_dispatch(tools: Seq<ToolImpl>, rq: RpcReqV) -> DispatchStepV {
    if rq.method == "initialize"@ {
        DispatchStepV::Done(sp_ok_resp(rq.id, sp_initialize_json()))
    } else if rq.method == "shutdown"@ {
        DispatchStepV::Done(sp_ok_resp(rq.id, JsonV::Null))
    } else if rq.method == "tools.list"@ || rq.method == "tools/list"@ {
        DispatchStepV::Done(sp_ok_resp(rq.id, sp_tools_list_json(tools)))
    } else if rq.method == "tools.call"@ || rq.method == "tools/call"@ {
        match sp_name_arg(rq.params) {
            Some(name) => match sp_call_tool(tools, name, sp_args(rq.params)) {
                ToolActionV::Reply(Ok(out)) => DispatchStepV::Done(sp_ok_resp(rq.id, out)),
                ToolActionV::Reply(Err(e)) => DispatchStepV::Done(
                    sp_err_resp(rq.id, CODE_APP_ERROR as int, e),
                ),
                ToolActionV::CallGrammar(request) => DispatchStepV::Grammar {
                    id: rq.id,
                    request: request,
                },
                ToolActionV::CallSpell(request) => DispatchStepV::Spell {
                    id: rq.id,
                    request: request,
                },
            },
            None => DispatchStepV::Done(
                sp_err_resp(rq.id, CODE_APP_ERROR as int, "missing tool name"@),
            ),
        }
    } else {
        DispatchStepV::Done(
            sp_err_resp(rq.id, CODE_METHOD_NOT_FOUND as int, "unknown method: "@ + rq.method),
        )
    }
}

/// The document form of the tools listing.
pub fn tools_list_json(reg: &ToolRegistry) -> (r: Json)
    ensures
        r@ == sp_tools_list_json(reg.spec_tools()),
{
    let metas = reg.list();
    let n = metas.len();
    let mut arr: Vec<Json> = Vec::new();
    let mut i: usize = 0;
    while i < n
        invariant
            n == metas@.len(),
            n == reg.spec_tools().len(),
            i <= n,
            forall|k: int|
                0 <= k < n ==> {
                    &&& (#[trigger] metas@[k]).name@ == sp_tool_name(reg.spec_tools()[k])
                    &&& metas@[k].description@ == sp_tool_description(reg.spec_tools()[k])
                    &&& metas@[k].input_schema@ == sp_tool_schema(reg.spec_tools()[k])
                },
            arr@.len() == i,
            forall|k: int|
                0 <= k < i ==> crate::json::json_view(#[trigger] arr@[k]) == sp_tool_entry_json(
                    reg.spec_tools()[k],
                ),
        decreases n - i,
    {
        let mut members: Vec<(String, Json)> = Vec::new();
        members.push((String::from_str("name"), Json::Str(metas[i].name.clone())));
        members.push((String::from_str("description"), Json::Str(metas[i].description.clone())));
        members.push((String::from_str("inputSchema"), metas[i].input_schema.deep_clone()));
        proof {
            crate::json::lemma_view_members_len(members@);
            assert(members@[0].0@ == "name"@);
            assert(members@[1].0@ == "description"@);
            assert(members@[2].0@ == "inputSchema"@);
            assert(crate::json::json_view_members(members@) =~= seq![
                ("name"@, JsonV::Str(sp_tool_name(reg.spec_tools()[i as int]))),
                ("description"@, JsonV::Str(sp_tool_description(reg.spec_tools()[i as int]))),
                ("inputSchema"@, sp_tool_schema(reg.spec_tools()[i as int])),
            ]);
        }
        arr.push(Json::Obj(members));
        i = i + 1;
    }
    proof {
        crate::json::lemma_view_seq_len(arr@);
        assert forall|k: int|
            0 <= k < arr@.len() implies crate::json::json_view_seq(arr@)[k] == sp_tool_entry_json(
            reg.spec_tools()[k],
        ) by {
            assert(crate::json::json_view_seq(arr@)[k] == crate::json::json_view(arr@[k]));
        }
        assert(crate::json::json_view_seq(arr@) =~= Seq::new(
            reg.spec_tools().len(),
            |i: int| sp_tool_entry_json(reg.spec_tools()[i]),
        ));
    }
    let mut members: Vec<(String, Json)> = Vec::new();
    members.push((String::from_str("tools"), Json::Arr(arr)));
    proof {
        crate::json::lemma_view_members_len(members@);
        assert(members@[0].0@ == "tools"@);
        assert(crate::json::json_view_members(members@) =~= seq![
            (
                "tools"@,
                JsonV::Arr(
                    Seq::new(
                        reg.spec_tools().len(),
                        |i: int| sp_tool_entry_json(reg.spec_tools()[i]),
                    ),
                ),
            ),
        ]);
    }
    Json::Obj(members)
}

/// The static identity `initialize` reports.
fn initialize_json() -> (r: Json)
    ensures
        r@ == sp_initialize_json(),
{
    let mut info: Vec<(String, Json)> = Vec::new();
    info.push((String::from_str("name"), Json::Str(String::from_str("irish-mcp-gateway"))));
    info.push((String::from_str("version"), Json::Str(String::from_str("0.1.0"))));
    proof {
        crate::json::lemma_view_members_len(info@);
        assert(info@[0].0@ == "name"@);
        assert(info@[1].0@ == "version"@);
        assert(crate::json::json_view_members(info@) =~= seq![
            ("name"@, JsonV::Str("irish-mcp-gateway"@)),
            ("version"@, JsonV::Str("0.1.0"@)),
        ]);
    }
    let caps: Vec<(String, Json)> = Vec::new();
    proof {
        crate::json::lemma_view_members_len(caps@);
        assert(crate::json::json_view_members(caps@) =~= Seq::<(Seq<char>, JsonV)>::empty());
    }
    let mut members: Vec<(String, Json)> = Vec::new();
    members.push((String::from_str("serverInfo"), Json::Obj(info)));
    members.push((String::from_str("capabilities"), Json::Obj(caps)));
    proof {
        crate::json::lemma_view_members_len(members@);
        assert(members@[0].0@ == "serverInfo"@);
        assert(members@[1].0@ == "capabilities"@);
        assert(crate::json::json_view_members(members@) =~= seq![
            (
                "serverInfo"@,
                JsonV::Obj(
                    seq![
                        ("name"@, JsonV::Str("irish-mcp-gateway"@)),
                        ("version"@, JsonV::Str("0.1.0"@)),
                    ],
                ),
            ),
            ("capabilities"@, JsonV::Obj(Seq::<(Seq<char>, JsonV)>::empty())),
        ]);
    }
    Json::Obj(members)
}

/// Dispatch one decoded request against the registry.
pub fn dispatch(reg: &ToolRegistry, req: RpcReq) -> (r: DispatchStep)
    ensures
        r@ == sp_dispatch(reg.spec_tools(), req@),
{
    let RpcReq { jsonrpc: _, id, method, params } = req;
    if crate::text::str_eq(method.as_str(), "initialize") {
        DispatchStep::Done(ok(id, initialize_json()))
    } else if crate::text::str_eq(method.as_str(), "shutdown") {
        DispatchStep::Done(ok(id, Json::Null))
    } else if crate::text::str_eq(method.as_str(), "tools.list") || crate::text::str_eq(
        method.as_str(),
        "tools/list",
    ) {
        DispatchStep::Done(ok(id, tools_list_json(reg)))
    } else if crate::text::str_eq(method.as_str(), "tools.call") || crate::text::str_eq(
        method.as_str(),
        "tools/call",
    ) {
        let name = match params.get_str("name") {
            Some(n) => n.clone(),
            None => {
                return DispatchStep::Done(
                    error(id, CODE_APP_ERROR, String::from_str("missing tool name")),
                );
            },
        };
        let null_args = Json::Null;
        let args: &Json = match params.get("arguments") {
            Some(a) => a,
            None => &null_args,
        };
        match reg.call(name.as_str(), args) {
            crate::tool::ToolAction::Reply(Ok(out)) => DispatchStep::Done(ok(id, out)),
            crate::tool::ToolAction::Reply(Err(e)) => DispatchStep::Done(
                error(id, CODE_APP_ERROR, e),
            ),
            crate::tool::ToolAction::CallGrammar(request) => DispatchStep::Grammar { id, request },
            crate::tool::ToolAction::CallSpell(request) => DispatchStep::Spell { id, request },
        }
    } else {
        let mut msg: Vec<char> = Vec::new();
        crate::text::push_str_chars(&mut msg, "unknown method: ");
        crate::text::push_str_chars(&mut msg, method.as_str());
        DispatchStep::Done(
            error(id, CODE_METHOD_NOT_FOUND, crate::text::chars_to_string(&msg)),
        )
    }
}

/// What finishing a grammar call yields: the wrapped issues on success,
/// an application error carrying the flattened message otherwise.
pub open spec fn sp_finish_grammar(id: JsonV, o: RemoteOutcomeV) -> RpcRespV {
    match crate::gramadoir::sp_analyze_finish(o) {
        Ok(ivs) => sp_ok_resp(id, sp_issues_result_json(ivs)),
        Err(e) => sp_err_resp(id, CODE_APP_ERROR as int, e),
    }
}

/// What finishing a spellcheck call yields: the wrapped corrections on
/// success, an application error carrying the flattened message
/// otherwise.
pub open spec fn sp_finish_spell(id: JsonV, o: RemoteOutcomeV) -> RpcRespV {
    match crate::gaelspell::sp_spell_finish(o) {
        Ok(cs) => sp_ok_resp(id, sp_corrections_result_json(cs)),
        Err(e) => sp_err_resp(id, CODE_APP_ERROR as int, e),
    }
}

/// Finish a grammar tool call with the outcome of its remote request.
pub fn finish_grammar(id: Json, outcome: &RemoteOutcome) -> (r: RpcResp)
    ensures
        r@ == sp_finish_grammar(id@, outcome@),
{
    let tool = ToolImpl::GrammarRemote(crate::tool::GrammarRemoteBackend::new(String::new()));
    match tool.finish_call(outcome) {
        Ok(out) => ok(id, out),
        Err(e) => error(id, CODE_APP_ERROR, e),
    }
}

/// Finish a spellcheck tool call with the outcome of its remote request.
pub fn finish_spell(id: Json, outcome: &RemoteOutcome) -> (r: RpcResp)
    ensures
        r@ == sp_finish_spell(id@, outcome@),
{
    let tool = ToolImpl::SpellRemote(crate::tool::SpellcheckRemoteBackend::new(String::new()));
    match tool.finish_call(outcome) {
        Ok(out) => ok(id, out),
        Err(e) => error(id, CODE_APP_ERROR, e),
    }
}

/// The parse-error message for bytes that are not JSON.
pub open spec fn sp_parse_error_msg() -> Seq<char> {
    "parse error: invalid JSON"@
}

/// The parse-error message for JSON that is not a request envelope.
pub open spec fn sp_bad_envelope_msg() -> Seq<char> {
    "parse error: invalid request envelope"@
}

/// Mathematical view of one line's handling.
pub ghost enum LineStepV {
    Reply(Seq<char>),
    Grammar { id: JsonV, request: RemoteRequestV },
    Spell { id: JsonV, request: RemoteRequestV },
}

/// The handling of one input line: the reply line to send back, or the
/// remote request a tool call needs together with the identifier to
/// answer under.
#[derive(Debug)]
pub enum LineStep {
    Reply(String),
    Grammar { id: Json, request: RemoteRequest },
    Spell { id: Json, request: RemoteRequest },
}

impl View for LineStep {
    type V = LineStepV;

    open spec fn view(&self) -> LineStepV {
        match self {
            LineStep::Reply(s) => LineStepV::Reply(s@),
            LineStep::Grammar { id, request } => LineStepV::Grammar {
                id: id@,
                request: request@,
            },
            LineStep::Spell { id, request } => LineStepV::Spell { id: id@, request: request@ },
        }
    }
}

/// What handling one line decides: bytes that fail JSON decoding, or
/// decode to something that is not a request envelope, are answered with
/// a parse-error line under a null identifier; a decoded request is
/// dispatched.
pub open spec fn sp_handle_line(tools: Seq<ToolImpl>, line: Seq<char>) -> LineStepV {
    match sp_parse_json(line) {
        None => LineStepV::Reply(
            sp_resp_line(sp_err_resp(JsonV::Null, -32700, sp_parse_error_msg())),
        ),
        Some(v) => match sp_req_of(v) {
            None => LineStepV::Reply(
                sp_resp_line(sp_err_resp(JsonV::Null, -32700, sp_bad_envelope_msg())),
            ),
            Some(rq) => match sp_dispatch(tools, rq) {
                DispatchStepV::Done(resp) => LineStepV::Reply(sp_resp_line(resp)),
                DispatchStepV::Grammar { id, request } => LineStepV::Grammar {
                    id: id,
                    request: request,
                },
                DispatchStepV::Spell { id, request } => LineStepV::Spell {
                    id: id,
                    request: request,
                },
            },
        },
    }
}

/// Handle one input line: decode it, dispatch it, and serialize the
/// response, or hand back the remote request still needed.
pub fn handle_stdio_line(reg: &ToolRegistry, line: &str) -> (r: LineStep)
    ensures
        r@ == sp_handle_line(reg.spec_tools(), line@),
{
    let doc = match parse_json(line) {
        Some(d) => d,
        None => {
            let resp = parse_error(String::from_str("parse error: invalid JSON"));
            return LineStep::Reply(resp.to_line());
        },
    };
    let req = match crate::rpc::req_from_json(&doc) {
        Some(rq) => rq,
        None => {
            let resp = parse_error(String::from_str("parse error: invalid request envelope"));
            return LineStep::Reply(resp.to_line());
        },
    };
    match dispatch(reg, req) {
        DispatchStep::Done(resp) => LineStep::Reply(resp.to_line()),
        DispatchStep::Grammar { id, request } => LineStep::Grammar { id, request },
        DispatchStep::Spell { id, request } => LineStep::Spell { id, request },
    }
}

/// Finish a line whose grammar call completed: the reply line to send.
pub fn finish_line_grammar(id: Json, outcome: &RemoteOutcome) -> (r: String)
    ensures
        r@ == sp_resp_line(sp_finish_grammar(id@, outcome@)),
{
    let resp = finish_grammar(id, outcome);
    resp.to_line()
}

/// Finish a line whose spellcheck call completed: the reply line to
/// send.
pub fn finish_line_spell(id: Json, outcome: &RemoteOutcome) -> (r: String)
    ensures
        r@ == sp_resp_line(sp_finish_spell(id@, outcome@)),
{
    let resp = finish_spell(id, outcome);
    resp.to_line()
}


/// The entries of the tools listing, in registry order.
pub open spec fn sp_tools_entries(tools: Seq<ToolImpl>) -> Seq<JsonV> {
    Seq::new(tools.len(), |i: int| sp_tool_entry_json(tools[i]))
}

/// Law: the tools listing names exactly the registry's tools, in
/// registry order, and every entry carries the tool's name, a non-empty
/// description, and an object-typed input schema.
pub proof fn lemma_tools_list_contract(tools: Seq<ToolImpl>)
    ensures
        sp_get(sp_tools_list_json(tools), "tools"@) == Some(JsonV::Arr(sp_tools_entries(tools))),
        sp_tools_entries(tools).len() == tools.len(),
        forall|i: int|
            0 <= i < tools.len() ==> sp_get(#[trigger] sp_tools_entries(tools)[i], "name"@)
                == Some(JsonV::Str(sp_tool_name(tools[i]))),
        forall|i: int|
            0 <= i < tools.len() ==> sp_get(#[trigger] sp_tools_entries(tools)[i], "description"@)
                == Some(JsonV::Str(sp_tool_description(tools[i]))),
        forall|i: int| 0 <= i < tools.len() ==> sp_tool_description(#[trigger] tools[i]).len() > 0,
        forall|i: int|
            0 <= i < tools.len() ==> sp_get(#[trigger] sp_tools_entries(tools)[i], "inputSchema"@)
                == Some(sp_tool_schema(tools[i])),
        forall|i: int| 0 <= i < tools.len() ==> sp_tool_schema(#[trigger] tools[i]) is Obj,
{
    reveal_strlit("tools");
    reveal_strlit("name");
    reveal_strlit("description");
    reveal_strlit("inputSchema");
    assert("name"@.len() == 4);
    assert("description"@.len() == 11);
    assert("inputSchema"@.len() == 11);
    assert("description"@[0] == 'd' && "inputSchema"@[0] == 'i');
    assert forall|i: int| 0 <= i < tools.len() implies {
        &&& sp_get(#[trigger] sp_tools_entries(tools)[i], "name"@) == Some(
            JsonV::Str(sp_tool_name(tools[i])),
        )
        &&& sp_get(sp_tools_entries(tools)[i], "description"@) == Some(
            JsonV::Str(sp_tool_description(tools[i])),
        )
        &&& sp_get(sp_tools_entries(tools)[i], "inputSchema"@) == Some(sp_tool_schema(tools[i]))
    } by {
        let entry = sp_tool_entry_json(tools[i]);
        let ms = seq![
            ("name"@, JsonV::Str(sp_tool_name(tools[i]))),
            ("description"@, JsonV::Str(sp_tool_description(tools[i]))),
            ("inputSchema"@, sp_tool_schema(tools[i])),
        ];
        assert(ms.drop_first() =~= seq![
            ("description"@, JsonV::Str(sp_tool_description(tools[i]))),
            ("inputSchema"@, sp_tool_schema(tools[i])),
        ]);
        assert(ms.drop_first().drop_first() =~= seq![
            ("inputSchema"@, sp_tool_schema(tools[i])),
        ]);
        assert(sp_get(entry, "name"@) == Some(JsonV::Str(sp_tool_name(tools[i]))));
        assert(crate::json::sp_obj_get(ms.drop_first().drop_first(), "inputSchema"@) == Some(
            sp_tool_schema(tools[i]),
        ));
        assert(crate::json::sp_obj_get(ms.drop_first(), "description"@) == Some(
            JsonV::Str(sp_tool_description(tools[i])),
        ));
        assert(crate::json::sp_obj_get(ms.drop_first(), "inputSchema"@)
            == crate::json::sp_obj_get(ms.drop_first().drop_first(), "inputSchema"@));
        assert(sp_get(entry, "description"@) == Some(JsonV::Str(sp_tool_description(tools[i]))));
        assert(sp_get(entry, "inputSchema"@) == Some(sp_tool_schema(tools[i])));
    }
    reveal_strlit("Return a friendly greeting");
    reveal_strlit("Irish grammar (local stub backend)");
    reveal_strlit("Irish grammar via Gramad\u{f3}ir");
    reveal_strlit("Irish spellcheck (local stub backend)");
    reveal_strlit("Irish spellcheck via GaelSpell");
    assert forall|i: int| 0 <= i < tools.len() implies sp_tool_description(
        #[trigger] tools[i],
    ).len() > 0 by {
        match tools[i] {
            ToolImpl::Hello(_) => assert("Return a friendly greeting"@.len() > 0),
            ToolImpl::GrammarLocal(_) => assert("Irish grammar (local stub backend)"@.len() > 0),
            ToolImpl::GrammarRemote(_) => assert("Irish grammar via Gramad\u{f3}ir"@.len() > 0),
            ToolImpl::SpellLocal(_) => assert("Irish spellcheck (local stub backend)"@.len() > 0),
            ToolImpl::SpellRemote(_) => assert("Irish spellcheck via GaelSpell"@.len() > 0),
        }
    }
}

/// The method names the dispatcher recognizes.
pub open spec fn sp_known_method(m: Seq<char>) -> bool {
    ||| m == "initialize"@
    ||| m == "shutdown"@
    ||| m == "tools.list"@
    ||| m == "tools/list"@
    ||| m == "tools.call"@
    ||| m == "tools/call"@
}

/// Law: a request with an unrecognized method is answered with the
/// method-not-found code, no result, and a message naming the offending
/// method.
pub proof fn lemma_unknown_method(tools: Seq<ToolImpl>, rq: RpcReqV)
    requires
        !sp_known_method(rq.method),
    ensures
        sp_dispatch(tools, rq) matches DispatchStepV::Done(r) && r.id == rq.id && r.result is None
            && (r.error matches Some(e) && e.code == CODE_METHOD_NOT_FOUND && e.message
            == "unknown method: "@ + rq.method),
{
}

/// Law: bytes that fail JSON decoding are answered with a response
/// carrying a null identifier and the parse-error code.
pub proof fn lemma_parse_error_line(tools: Seq<ToolImpl>, line: Seq<char>)
    requires
        sp_parse_json(line) is None,
    ensures
        sp_handle_line(tools, line) == LineStepV::Reply(
            sp_resp_line(sp_err_resp(JsonV::Null, crate::rpc::CODE_PARSE_ERROR as int, sp_parse_error_msg())),
        ),
        sp_err_resp(JsonV::Null, crate::rpc::CODE_PARSE_ERROR as int, sp_parse_error_msg()).id
            == JsonV::Null,
        sp_err_resp(
            JsonV::Null,
            crate::rpc::CODE_PARSE_ERROR as int,
            sp_parse_error_msg(),
        ).error matches Some(e) && e.code == crate::rpc::CODE_PARSE_ERROR,
{
}

/// Law: listing tools is idempotent — two `tools.list` dispatches with
/// no registry mutation in between return the same listing, so the same
/// tool name set.
pub proof fn lemma_tools_list_idempotent(tools: Seq<ToolImpl>, rq1: RpcReqV, rq2: RpcReqV)
    requires
        rq1.method == "tools.list"@ || rq1.method == "tools/list"@,
        rq2.method == "tools.list"@ || rq2.method == "tools/list"@,
    ensures
        sp_dispatch(tools, rq1) matches DispatchStepV::Done(r1) && r1.result == Some(
            sp_tools_list_json(tools),
        ),
        sp_dispatch(tools, rq2) matches DispatchStepV::Done(r2) && r2.result == Some(
            sp_tools_list_json(tools),
        ),
{
    lemma_method_literals();
}

/// The recognized method literals are pairwise distinct.
proof fn lemma_method_literals()
    ensures
        "initialize"@ != "shutdown"@,
        "initialize"@ != "tools.list"@,
        "initialize"@ != "tools/list"@,
        "initialize"@ != "tools.call"@,
        "initialize"@ != "tools/call"@,
        "shutdown"@ != "tools.list"@,
        "shutdown"@ != "tools/list"@,
        "shutdown"@ != "tools.call"@,
        "shutdown"@ != "tools/call"@,
        "tools.list"@ != "tools/list"@,
        "tools.list"@ != "tools.call"@,
        "tools.list"@ != "tools/call"@,
        "tools/list"@ != "tools.call"@,
        "tools/list"@ != "tools/call"@,
        "tools.call"@ != "tools/call"@,
{
    reveal_strlit("initialize");
    reveal_strlit("shutdown");
    reveal_strlit("tools.list");
    reveal_strlit("tools/list");
    reveal_strlit("tools.call");
    reveal_strlit("tools/call");
    assert("initialize"@[0] == 'i' && "shutdown"@[0] == 's' && "tools.list"@[0] == 't');
    assert("initialize"@.len() == 10 && "shutdown"@.len() == 8);
    assert("tools.list"@[5] == '.' && "tools/list"@[5] == '/');
    assert("tools.list"@[6] == 'l' && "tools.call"@[6] == 'c');
    assert("tools/list"@[6] == 'l' && "tools/call"@[6] == 'c');
    assert("tools.call"@[5] == '.' && "tools/call"@[5] == '/');
}

/// Law: a `tools.call` naming no registered tool is answered with the
/// application-error code and a message naming the unknown tool.
pub proof fn lemma_call_unknown_tool(tools: Seq<ToolImpl>, rq: RpcReqV, name: Seq<char>)
    requires
        rq.method == "tools.call"@ || rq.method == "tools/call"@,
        sp_name_arg(rq.params) == Some(name),
        crate::registry::sp_lookup(tools, name) is None,
    ensures
        sp_dispatch(tools, rq) matches DispatchStepV::Done(r) && r.id == rq.id && r.result is None
            && (r.error matches Some(e) && e.code == CODE_APP_ERROR && e.message
            == "unknown tool: "@ + name),
{
    lemma_method_literals();
}

/// Law: a `tools.call` naming a registered local tool with valid
/// arguments is answered with a result and no error.
pub proof fn lemma_call_local_success(tools: Seq<ToolImpl>, rq: RpcReqV, name: Seq<char>, t: ToolImpl)
    requires
        rq.method == "tools.call"@ || rq.method == "tools/call"@,
        sp_name_arg(rq.params) == Some(name),
        crate::registry::sp_lookup(tools, name) == Some(t),
        t matches ToolImpl::Hello(_) || ((t matches ToolImpl::GrammarLocal(_) || t matches ToolImpl::SpellLocal(_))
            && crate::tool::sp_text_arg(sp_args(rq.params)) is Some),
    ensures
        sp_dispatch(tools, rq) matches DispatchStepV::Done(r) && r.id == rq.id
            && r.result is Some && r.error is None,
{
    lemma_method_literals();
}

/// Law: a `tools.call` naming a registered remote tool with valid
/// arguments hands back that tool's remote request, under the request's
/// identifier.
pub proof fn lemma_call_remote_plan(tools: Seq<ToolImpl>, rq: RpcReqV, name: Seq<char>, t: ToolImpl)
    requires
        rq.method == "tools.call"@ || rq.method == "tools/call"@,
        sp_name_arg(rq.params) == Some(name),
        crate::registry::sp_lookup(tools, name) == Some(t),
        t matches ToolImpl::GrammarRemote(_) || t matches ToolImpl::SpellRemote(_),
        crate::tool::sp_text_arg(sp_args(rq.params)) is Some,
    ensures
        t matches ToolImpl::GrammarRemote(_) ==> sp_dispatch(tools, rq) matches DispatchStepV::Grammar {
            id,
            ..
        } && id == rq.id,
        t matches ToolImpl::SpellRemote(_) ==> sp_dispatch(tools, rq) matches DispatchStepV::Spell {
            id,
            ..
        } && id == rq.id,
{
    lemma_method_literals();
}

/// Law: finishing a remote grammar call with a successful outcome whose
/// body is a well-formed upstream response yields a result and no error;
/// any other outcome yields an application error and no result.
pub proof fn lemma_finish_grammar_cases(id: JsonV, o: RemoteOutcomeV)
    ensures
        crate::gramadoir::sp_analyze_finish(o) is Ok ==> sp_finish_grammar(id, o).result is Some
            && sp_finish_grammar(id, o).error is None && sp_finish_grammar(id, o).id == id,
        crate::gramadoir::sp_analyze_finish(o) is Err ==> sp_finish_grammar(id, o).result is None
            && (sp_finish_grammar(id, o).error matches Some(e) && e.code == CODE_APP_ERROR)
            && sp_finish_grammar(id, o).id == id,
{
}

/// Law: finishing a remote spellcheck call behaves the same way.
pub proof fn lemma_finish_spell_cases(id: JsonV, o: RemoteOutcomeV)
    ensures
        crate::gaelspell::sp_spell_finish(o) is Ok ==> sp_finish_spell(id, o).result is Some
            && sp_finish_spell(id, o).error is None && sp_finish_spell(id, o).id == id,
        crate::gaelspell::sp_spell_finish(o) is Err ==> sp_finish_spell(id, o).result is None
            && (sp_finish_spell(id, o).error matches Some(e) && e.code == CODE_APP_ERROR)
            && sp_finish_spell(id, o).id == id,
{
}


/// Law: dispatch never fails to answer — every finished response is
/// well-formed (exactly one of result and error, under the fixed
/// protocol tag) and echoes the identifier of its request.
pub proof fn lemma_dispatch_well_formed(tools: Seq<ToolImpl>, rq: RpcReqV)
    ensures
        sp_dispatch(tools, rq) matches DispatchStepV::Done(r) ==> r.wf() && r.id == rq.id,
        sp_dispatch(tools, rq) matches DispatchStepV::Grammar { id, .. } ==> id == rq.id,
        sp_dispatch(tools, rq) matches DispatchStepV::Spell { id, .. } ==> id == rq.id,
{
}

/// Law: finishing a remote call also yields a well-formed response that
/// echoes the identifier it was given.
pub proof fn lemma_finish_well_formed(id: JsonV, o: RemoteOutcomeV)
    ensures
        sp_finish_grammar(id, o).wf() && sp_finish_grammar(id, o).id == id,
        sp_finish_spell(id, o).wf() && sp_finish_spell(id, o).id == id,
{
}

} // verus!
