//! The tool capability model: every tool has a stable name, a human
//! description, an input schema, and a call operation.  The tool set is
//! closed, so a tool is a variant of [`ToolImpl`]: a local greeting, a
//! local stub or a remote adapter per language capability.
//!
//! A call never performs network work itself: it either replies at once
//! (local tools and argument validation failures), or hands back the
//! remote request the transport should perform; the outcome of that
//! request is then fed to [`ToolImpl::finish_call`].

use crate::gaelspell::{
    sp_corrections_result_json, sp_spell_finish, CorrectionV, GaelspellRemote,
};
use crate::gramadoir::{
    sp_analyze_finish, sp_issues_result_json, GramadoirRemote, GrammarIssueV,
};
use crate::json::{sp_get, Json, JsonV};
use crate::json_ser::sp_ser;
use crate::remote::{sp_trim_slashes, RemoteOutcome, RemoteOutcomeV, RemoteRequest, RemoteRequestV};
use crate::text::{chars_to_string, push_str_chars};
use vstd::prelude::*;

verus! {

/// The local greeting tool.
#[derive(Debug)]
pub struct HelloTool;

/// The local grammar stub: accepts the same arguments as the remote
/// backend and reports no issues.
#[derive(Debug)]
pub struct GrammarLocalBackend;

/// The local spellcheck stub: accepts the same arguments as the remote
/// backend and reports no corrections.
#[derive(Debug)]
pub struct SpellcheckLocalBackend;

/// The remote-backed grammar tool.
#[derive(Debug)]
pub struct GrammarRemoteBackend {
    pub base_url: String,
    pub retries: u32,
}

impl GrammarRemoteBackend {
    /// A backend for the service at `base_url` with the default retry
    /// budget.
    pub fn new(base_url: String) -> (b: Self)
        ensures
            b.base_url@ == base_url@,
            b.retries == 2u32,
    {
        GrammarRemoteBackend { base_url, retries: 2 }
    }
}

/// The remote-backed spellcheck tool.
#[derive(Debug)]
pub struct SpellcheckRemoteBackend {
    pub base_url: String,
    pub retries: u32,
}

impl SpellcheckRemoteBackend {
    /// A backend for the service at `base_url` with the default retry
    /// budget.
    pub fn new(base_url: String) -> (b: Self)
        ensures
            b.base_url@ == base_url@,
            b.retries == 2u32,
    {
        SpellcheckRemoteBackend { base_url, retries: 2 }
    }
}

/// A tool of the registry: one of the closed set of capabilities.
#[derive(Debug)]
pub enum ToolImpl {
    Hello(HelloTool),
    GrammarLocal(GrammarLocalBackend),
    GrammarRemote(GrammarRemoteBackend),
    SpellLocal(SpellcheckLocalBackend),
    SpellRemote(SpellcheckRemoteBackend),
}

/// The stable name a tool is registered and called under.
pub open spec fn sp_tool_name(t: ToolImpl) -> Seq<char> {
    match t {
        ToolImpl::Hello(_) => "hello.echo"@,
        ToolImpl::GrammarLocal(_) => "grammar.check"@,
        ToolImpl::GrammarRemote(_) => "grammar.check"@,
        ToolImpl::SpellLocal(_) => "spell.check"@,
        ToolImpl::SpellRemote(_) => "spell.check"@,
    }
}

/// The human description of a tool.
pub open spec fn sp_tool_description(t: ToolImpl) -> Seq<char> {
    match t {
        ToolImpl::Hello(_) => "Return a friendly greeting"@,
        ToolImpl::GrammarLocal(_) => "Irish grammar (local stub backend)"@,
        ToolImpl::GrammarRemote(_) => "Irish grammar via Gramad\u{f3}ir"@,
        ToolImpl::SpellLocal(_) => "Irish spellcheck (local stub backend)"@,
        ToolImpl::SpellRemote(_) => "Irish spellcheck via GaelSpell"@,
    }
}

/// The schema of tools taking a required `text` string.
pub open spec fn sp_text_schema() -> JsonV {
    JsonV::Obj(
        seq![
            ("type"@, JsonV::Str("object"@)),
            (
                "properties"@,
                JsonV::Obj(
                    seq![("text"@, JsonV::Obj(seq![("type"@, JsonV::Str("string"@))]))],
                ),
            ),
            ("required"@, JsonV::Arr(seq![JsonV::Str("text"@)])),
        ],
    )
}

/// The schema of the greeting tool: an optional `name` string.
pub open spec fn sp_hello_schema() -> JsonV {
    JsonV::Obj(
        seq![
            ("type"@, JsonV::Str("object"@)),
            (
                "properties"@,
                JsonV::Obj(
                    seq![("name"@, JsonV::Obj(seq![("type"@, JsonV::Str("string"@))]))],
                ),
            ),
            ("required"@, JsonV::Arr(Seq::empty())),
        ],
    )
}

/// The input schema a tool declares.
pub open spec fn sp_tool_schema(t: ToolImpl) -> JsonV {
    match t {
        ToolImpl::Hello(_) => sp_hello_schema(),
        _ => sp_text_schema(),
    }
}

/// The required `text` argument, when it is present as a string.
pub open spec fn sp_text_arg(args: JsonV) -> Option<Seq<char>> {
    match sp_get(args, "text"@) {
        Some(JsonV::Str(t)) => Some(t),
        _ => None,
    }
}

/// The name the greeting addresses: the `name` string argument, or
/// `world`.
pub open spec fn sp_hello_name(args: JsonV) -> Seq<char> {
    match sp_get(args, "name"@) {
        Some(JsonV::Str(n)) => n,
        _ => "world"@,
    }
}

/// The greeting document.
pub open spec fn sp_hello_output(args: JsonV) -> JsonV {
    JsonV::Obj(
        seq![("message"@, JsonV::Str("Dia dhuit, "@ + sp_hello_name(args) + "!"@))],
    )
}

/// The message for a call without its required text argument.
pub open spec fn sp_missing_text_msg() -> Seq<char> {
    "missing 'text'"@
}

/// Mathematical view of what a call decides.
pub ghost enum ToolActionV {
    Reply(Result<JsonV, Seq<char>>),
    CallGrammar(RemoteRequestV),
    CallSpell(RemoteRequestV),
}

/// What a call decides: an immediate reply, or the remote request the
/// transport should perform for one of the two remote capabilities.
#[derive(Debug)]
pub enum ToolAction {
    Reply(Result<Json, String>),
    CallGrammar(RemoteRequest),
    CallSpell(RemoteRequest),
}

impl View for ToolAction {
    type V = ToolActionV;

    open spec fn view(&self) -> ToolActionV {
        match self {
            ToolAction::Reply(Ok(j)) => ToolActionV::Reply(Ok(j@)),
            ToolAction::Reply(Err(e)) => ToolActionV::Reply(Err(e@)),
            ToolAction::CallGrammar(r) => ToolActionV::CallGrammar(r@),
            ToolAction::CallSpell(r) => ToolActionV::CallSpell(r@),
        }
    }
}

/// The payload posted to either upstream for `text`.
pub open spec fn sp_teacs_body(text: Seq<char>) -> Seq<char> {
    sp_ser(JsonV::Obj(seq![("teacs"@, JsonV::Str(text))]))
}

/// What each tool decides for given arguments.  Tools validate their own
/// required arguments and fail with a caller-safe message; remote tools
/// hand back the POST to perform.
pub open spec fn sp_start_call(t: ToolImpl, args: JsonV) -> ToolActionV {
    match t {
        ToolImpl::Hello(_) => ToolActionV::Reply(Ok(sp_hello_output(args))),
        ToolImpl::GrammarLocal(_) => match sp_text_arg(args) {
            Some(_) => ToolActionV::Reply(Ok(sp_issues_result_json(Seq::empty()))),
            None => ToolActionV::Reply(Err(sp_missing_text_msg())),
        },
        ToolImpl::SpellLocal(_) => match sp_text_arg(args) {
            Some(_) => ToolActionV::Reply(Ok(sp_corrections_result_json(Seq::empty()))),
            None => ToolActionV::Reply(Err(sp_missing_text_msg())),
        },
        ToolImpl::GrammarRemote(b) => match sp_text_arg(args) {
            Some(text) => ToolActionV::CallGrammar(
                RemoteRequestV {
                    url: sp_trim_slashes(b.base_url@) + "/api/gramadoir/1.0"@,
                    body: sp_teacs_body(text),
                    retries: b.retries,
                },
            ),
            None => ToolActionV::Reply(Err(sp_missing_text_msg())),
        },
        ToolImpl::SpellRemote(b) => match sp_text_arg(args) {
            Some(text) => ToolActionV::CallSpell(
                RemoteRequestV {
                    url: sp_trim_slashes(b.base_url@) + "/api/gaelspell/1.0"@,
                    body: sp_teacs_body(text),
                    retries: b.retries,
                },
            ),
            None => ToolActionV::Reply(Err(sp_missing_text_msg())),
        },
    }
}

/// What feeding a remote outcome back to a tool yields: the wrapped
/// normalized result for the remote capabilities; local tools have no
/// pending remote call.
pub open spec fn sp_finish_call(t: ToolImpl, o: RemoteOutcomeV) -> Result<JsonV, Seq<char>> {
    match t {
        ToolImpl::GrammarRemote(_) => match sp_analyze_finish(o) {
            Ok(ivs) => Ok(sp_issues_result_json(ivs)),
            Err(e) => Err(e),
        },
        ToolImpl::SpellRemote(_) => match sp_spell_finish(o) {
            Ok(cs) => Ok(sp_corrections_result_json(cs)),
            Err(e) => Err(e),
        },
        _ => Err("no remote call pending"@),
    }
}

/// The schema of tools taking a required `text` string.
pub fn text_schema_json() -> (r: Json)
    ensures
        r@ == sp_text_schema(),
{
    let mut prop_inner: Vec<(String, Json)> = Vec::new();
    prop_inner.push((String::from_str("type"), Json::Str(String::from_str("string"))));
    proof {
        crate::json::lemma_view_members_len(prop_inner@);
        assert(crate::json::json_view_members(prop_inner@) =~= seq![
            ("type"@, JsonV::Str("string"@)),
        ]);
    }
    let mut props: Vec<(String, Json)> = Vec::new();
    props.push((String::from_str("text"), Json::Obj(prop_inner)));
    proof {
        crate::json::lemma_view_members_len(props@);
        assert(crate::json::json_view_members(props@) =~= seq![
            ("text"@, JsonV::Obj(seq![("type"@, JsonV::Str("string"@))])),
        ]);
    }
    let mut req: Vec<Json> = Vec::new();
    req.push(Json::Str(String::from_str("text")));
    proof {
        crate::json::lemma_view_seq_len(req@);
        assert(crate::json::json_view_seq(req@) =~= seq![JsonV::Str("text"@)]);
    }
    let mut members: Vec<(String, Json)> = Vec::new();
    members.push((String::from_str("type"), Json::Str(String::from_str("object"))));
    members.push((String::from_str("properties"), Json::Obj(props)));
    members.push((String::from_str("required"), Json::Arr(req)));
    proof {
        crate::json::lemma_view_members_len(members@);
        assert(members@[0].0@ == "type"@ && members@[0].1@ == JsonV::Str("object"@));
        assert(members@[1].0@ == "properties"@);
        assert(members@[2].0@ == "required"@);
        assert(crate::json::json_view_members(members@) =~= seq![
            ("type"@, JsonV::Str("object"@)),
            (
                "properties"@,
                JsonV::Obj(
                    seq![("text"@, JsonV::Obj(seq![("type"@, JsonV::Str("string"@))]))],
                ),
            ),
            ("required"@, JsonV::Arr(seq![JsonV::Str("text"@)])),
        ]);
    }
    Json::Obj(members)
}

/// The schema of the greeting tool.
pub fn hello_schema_json() -> (r: Json)
    ensures
        r@ == sp_hello_schema(),
{
    let mut prop_inner: Vec<(String, Json)> = Vec::new();
    prop_inner.push((String::from_str("type"), Json::Str(String::from_str("string"))));
    proof {
        crate::json::lemma_view_members_len(prop_inner@);
        assert(crate::json::json_view_members(prop_inner@) =~= seq![
            ("type"@, JsonV::Str("string"@)),
        ]);
    }
    let mut props: Vec<(String, Json)> = Vec::new();
    props.push((String::from_str("name"), Json::Obj(prop_inner)));
    proof {
        crate::json::lemma_view_members_len(props@);
        assert(crate::json::json_view_members(props@) =~= seq![
            ("name"@, JsonV::Obj(seq![("type"@, JsonV::Str("string"@))])),
        ]);
    }
    let req: Vec<Json> = Vec::new();
    proof {
        crate::json::lemma_view_seq_len(req@);
        assert(crate::json::json_view_seq(req@) =~= Seq::<JsonV>::empty());
    }
    let mut members: Vec<(String, Json)> = Vec::new();
    members.push((String::from_str("type"), Json::Str(String::from_str("object"))));
    members.push((String::from_str("properties"), Json::Obj(props)));
    members.push((String::from_str("required"), Json::Arr(req)));
    proof {
        crate::json::lemma_view_members_len(members@);
        assert(members@[0].0@ == "type"@ && members@[0].1@ == JsonV::Str("object"@));
        assert(members@[1].0@ == "properties"@);
        assert(members@[2].0@ == "required"@);
        assert(crate::json::json_view_members(members@) =~= seq![
            ("type"@, JsonV::Str("object"@)),
            (
                "properties"@,
                JsonV::Obj(
                    seq![("name"@, JsonV::Obj(seq![("type"@, JsonV::Str("string"@))]))],
                ),
            ),
            ("required"@, JsonV::Arr(Seq::<JsonV>::empty())),
        ]);
    }
    Json::Obj(members)
}

impl ToolImpl {
    /// The stable name the tool is registered under.
    pub fn name(&self) -> (r: &'static str)
        ensures
            r@ == sp_tool_name(*self),
    {
        match self {
            ToolImpl::Hello(_) => "hello.echo",
            ToolImpl::GrammarLocal(_) => "grammar.check",
            ToolImpl::GrammarRemote(_) => "grammar.check",
            ToolImpl::SpellLocal(_) => "spell.check",
            ToolImpl::SpellRemote(_) => "spell.check",
        }
    }

    /// The human description of the tool.
    pub fn description(&self) -> (r: &'static str)
        ensures
            r@ == sp_tool_description(*self),
    {
        match self {
            ToolImpl::Hello(_) => "Return a friendly greeting",
            ToolImpl::GrammarLocal(_) => "Irish grammar (local stub backend)",
            ToolImpl::GrammarRemote(_) => "Irish grammar via Gramad\u{f3}ir",
            ToolImpl::SpellLocal(_) => "Irish spellcheck (local stub backend)",
            ToolImpl::SpellRemote(_) => "Irish spellcheck via GaelSpell",
        }
    }

    /// The input schema the tool declares.
    pub fn input_schema(&self) -> (r: Json)
        ensures
            r@ == sp_tool_schema(*self),
    {
        match self {
            ToolImpl::Hello(_) => hello_schema_json(),
            _ => text_schema_json(),
        }
    }

    /// Decide a call for the given arguments: reply at once, or hand back
    /// the remote request to perform.
    pub fn start_call(&self, args: &Json) -> (r: ToolAction)
        ensures
            r@ == sp_start_call(*self, args@),
    {
        match self {
            ToolImpl::Hello(_) => {
                let name: String = match args.get_str("name") {
                    Some(n) => n.clone(),
                    None => String::from_str("world"),
                };
                let mut msg: Vec<char> = Vec::new();
                push_str_chars(&mut msg, "Dia dhuit, ");
                push_str_chars(&mut msg, name.as_str());
                push_str_chars(&mut msg, "!");
                let mut members: Vec<(String, Json)> = Vec::new();
                members.push((String::from_str("message"), Json::Str(chars_to_string(&msg))));
                proof {
                    crate::json::lemma_view_members_len(members@);
                    assert(crate::json::json_view_members(members@) =~= seq![
                        ("message"@, JsonV::Str("Dia dhuit, "@ + sp_hello_name(args@) + "!"@)),
                    ]);
                }
                ToolAction::Reply(Ok(Json::Obj(members)))
            },
            ToolImpl::GrammarLocal(_) => {
                match args.get_str("text") {
                    Some(_) => {
                        let issues: Vec<crate::gramadoir::GrammarIssue> = Vec::new();
                        let out = crate::gramadoir::grammar_result_json(&issues);
                        proof {
                            assert(Seq::new(issues@.len(), |i: int| issues@[i]@)
                                =~= Seq::<GrammarIssueV>::empty());
                        }
                        ToolAction::Reply(Ok(out))
                    },
                    None => ToolAction::Reply(Err(String::from_str("missing 'text'"))),
                }
            },
            ToolImpl::SpellLocal(_) => {
                match args.get_str("text") {
                    Some(_) => {
                        let corrections: Vec<crate::gaelspell::Correction> = Vec::new();
                        let out = crate::gaelspell::spell_result_json(&corrections);
                        proof {
                            assert(Seq::new(corrections@.len(), |i: int| corrections@[i]@)
                                =~= Seq::<CorrectionV>::empty());
                        }
                        ToolAction::Reply(Ok(out))
                    },
                    None => ToolAction::Reply(Err(String::from_str("missing 'text'"))),
                }
            },
            ToolImpl::GrammarRemote(b) => {
                match args.get_str("text") {
                    Some(text) => {
                        let client = GramadoirRemote {
                            base: b.base_url.clone(),
                            retries: b.retries,
                        };
                        ToolAction::CallGrammar(client.analyze_request(text.as_str()))
                    },
                    None => ToolAction::Reply(Err(String::from_str("missing 'text'"))),
                }
            },
            ToolImpl::SpellRemote(b) => {
                match args.get_str("text") {
                    Some(text) => {
                        let client = GaelspellRemote {
                            base: b.base_url.clone(),
                            retries: b.retries,
                        };
                        ToolAction::CallSpell(client.check_request(text.as_str()))
                    },
                    None => ToolAction::Reply(Err(String::from_str("missing 'text'"))),
                }
            },
        }
    }

    /// Feed the outcome of the tool's remote request back in, yielding
    /// the wrapped result or the flattened error message.
    pub fn finish_call(&self, outcome: &RemoteOutcome) -> (r: Result<Json, String>)
        ensures
            match r {
                Ok(j) => sp_finish_call(*self, outcome@) == Ok::<JsonV, Seq<char>>(j@),
                Err(e) => sp_finish_call(*self, outcome@) == Err::<JsonV, Seq<char>>(e@),
            },
    {
        match self {
            ToolImpl::GrammarRemote(_) => {
                match GramadoirRemote::analyze_finish(outcome) {
                    Ok(issues) => {
                        proof {
                            lemma_finish_grammar_bounds(outcome@);
                            assert(sp_analyze_finish(outcome@) matches Ok(ivs) && ivs =~= Seq::new(
                                issues@.len(),
                                |i: int| issues@[i]@,
                            ));
                        }
                        Ok(crate::gramadoir::grammar_result_json(&issues))
                    },
                    Err(e) => Err(e),
                }
            },
            ToolImpl::SpellRemote(_) => {
                match GaelspellRemote::check_finish(outcome) {
                    Ok(corrections) => {
                        proof {
                            lemma_finish_spell_bounds(outcome@);
                            assert(sp_spell_finish(outcome@) matches Ok(cs) && cs =~= Seq::new(
                                corrections@.len(),
                                |i: int| corrections@[i]@,
                            ));
                        }
                        Ok(crate::gaelspell::spell_result_json(&corrections))
                    },
                    Err(e) => Err(e),
                }
            },
            _ => Err(String::from_str("no remote call pending")),
        }
    }
}

/// Issues surfaced by the grammar adapter keep their offsets within 32
/// bits.
proof fn lemma_finish_grammar_bounds(o: RemoteOutcomeV)
    ensures
        sp_analyze_finish(o) matches Ok(ivs) ==> forall|k: int|
            0 <= k < ivs.len() ==> 0 <= (#[trigger] ivs[k]).start <= u32::MAX && 0 <= ivs[k].end
                <= u32::MAX,
{
    if let RemoteOutcomeV::Http { status, body } = o {
        if crate::remote::sp_status_success(status) {
            if let Some(v) = crate::json_parse::sp_parse_json(body) {
                if let JsonV::Arr(items) = v {
                    crate::gramadoir::lemma_issue_list_bounds(items);
                }
            }
        }
    }
}

/// Corrections surfaced by the spellcheck adapter keep their offsets at
/// zero.
proof fn lemma_finish_spell_bounds(o: RemoteOutcomeV)
    ensures
        sp_spell_finish(o) matches Ok(cs) ==> forall|k: int|
            0 <= k < cs.len() ==> (#[trigger] cs[k]).start == 0 && cs[k].end == 0,
{
    if let RemoteOutcomeV::Http { status, body } = o {
        if crate::remote::sp_status_success(status) {
            if let Some(v) = crate::json_parse::sp_parse_json(body) {
                if let JsonV::Arr(items) = v {
                    crate::gaelspell::lemma_correction_list_bounds(items);
                }
            }
        }
    }
}

} // verus!
