//! The grammar remote adapter: the request payload sent to the Gramadóir
//! service, and the normalization of its wire format — issue objects with
//! string-encoded offsets — into [`GrammarIssue`] values.
//!
//! The upstream encodes numbers as strings and is inconsistent about
//! which fields it fills, so reading is defensive: unparsable numeric
//! strings count as zero, and when no end offset is given one is derived
//! from the start and the error length.

use crate::config::ToolConfig;
use crate::json::{
    json_view, json_view_seq, lemma_view_seq_len, sp_get, Json, JsonV,
};
use crate::json_parse::{parse_json, sp_parse_json};
use crate::json_ser::{json_to_string, sp_ser};
use crate::remote::{
    endpoint_url, sp_status_err_msg, sp_status_success, sp_trim_slashes, RemoteOutcome,
    RemoteOutcomeV, RemoteRequest,
};
use crate::text::{parse_offset, sp_parse_offset};
use vstd::prelude::*;

verus! {

/// Mathematical view of a normalized grammar issue.
pub ghost struct GrammarIssueV {
    pub code: Seq<char>,
    pub message: Seq<char>,
    pub start: int,
    pub end: int,
    pub suggestions: Seq<Seq<char>>,
}

/// A normalized grammar issue: the rule code, its message, the character
/// offsets it covers, and suggested replacements.
#[derive(Debug)]
pub struct GrammarIssue {
    pub code: String,
    pub message: String,
    pub start: usize,
    pub end: usize,
    pub suggestions: Vec<String>,
}

impl View for GrammarIssue {
    type V = GrammarIssueV;

    open spec fn view(&self) -> GrammarIssueV {
        GrammarIssueV {
            code: self.code@,
            message: self.message@,
            start: self.start as int,
            end: self.end as int,
            suggestions: Seq::new(self.suggestions@.len(), |i: int| self.suggestions@[i]@),
        }
    }
}

/// The string a wire field holds: empty when absent, nothing when it is
/// present with a non-string value.
pub open spec fn sp_str_or_default(v: JsonV, key: Seq<char>) -> Option<Seq<char>> {
    match sp_get(v, key) {
        None => Some(Seq::empty()),
        Some(JsonV::Str(s)) => Some(s),
        Some(_) => None,
    }
}

/// Whether the optional context field is acceptable: absent, null, or a
/// string.
pub open spec fn sp_context_ok(v: JsonV) -> bool {
    match sp_get(v, "context"@) {
        None => true,
        Some(JsonV::Null) => true,
        Some(JsonV::Str(_)) => true,
        Some(_) => false,
    }
}

/// The derived end offset when the upstream gives only a length, clamped
/// to 32 bits.
pub open spec fn sp_derived_end(start: nat, len: nat) -> int {
    if start + len > u32::MAX {
        u32::MAX as int
    } else {
        (start + len) as int
    }
}

/// The issue one wire object denotes: `msg` and `ruleId` must be strings;
/// the offset fields are read defensively, and the end offset falls back
/// to start plus length when `tox` is absent or zero.
pub open spec fn sp_issue_of_wire(v: JsonV) -> Option<GrammarIssueV> {
    match (sp_get(v, "msg"@), sp_get(v, "ruleId"@)) {
        (Some(JsonV::Str(m)), Some(JsonV::Str(rid))) => if sp_context_ok(v) {
            match (
                sp_str_or_default(v, "contextoffset"@),
                sp_str_or_default(v, "errorlength"@),
                sp_str_or_default(v, "fromx"@),
                sp_str_or_default(v, "fromy"@),
                sp_str_or_default(v, "tox"@),
                sp_str_or_default(v, "toy"@),
            ) {
                (Some(_), Some(el), Some(fx), Some(_), Some(tx), Some(_)) => {
                    let start = sp_parse_offset(fx);
                    let tox = sp_parse_offset(tx);
                    Some(
                        GrammarIssueV {
                            code: rid,
                            message: m,
                            start: start as int,
                            end: if tox > 0 {
                                tox as int
                            } else {
                                sp_derived_end(start, sp_parse_offset(el))
                            },
                            suggestions: Seq::empty(),
                        },
                    )
                },
                _ => None,
            }
        } else {
            None
        },
        _ => None,
    }
}

/// The issues a sequence of wire objects denotes.
pub open spec fn sp_issue_list(items: Seq<JsonV>) -> Option<Seq<GrammarIssueV>>
    decreases items.len(),
{
    if items.len() == 0 {
        Some(Seq::empty())
    } else {
        match sp_issue_of_wire(items.first()) {
            Some(iv) => match sp_issue_list(items.drop_first()) {
                Some(r) => Some(seq![iv] + r),
                None => None,
            },
            None => None,
        }
    }
}

/// The issues a whole upstream document denotes: it must be an array of
/// wire objects.
pub open spec fn sp_issues_of_wire(v: JsonV) -> Option<Seq<GrammarIssueV>> {
    match v {
        JsonV::Arr(items) => sp_issue_list(items),
        _ => None,
    }
}

/// Read a wire field that must be a string or absent.
fn field_str_or_default(v: &Json, key: &str) -> (r: Option<String>)
    ensures
        match r {
            Some(s) => sp_str_or_default(v@, key@) == Some(s@),
            None => sp_str_or_default(v@, key@) is None,
        },
{
    match v.get(key) {
        None => Some(String::new()),
        Some(j) => match j {
            Json::Str(s) => Some(s.clone()),
            _ => None,
        },
    }
}

/// Read one wire object into an issue.
fn issue_from_wire(v: &Json) -> (r: Option<GrammarIssue>)
    ensures
        match r {
            Some(iv) => sp_issue_of_wire(v@) == Some(iv@),
            None => sp_issue_of_wire(v@) is None,
        },
{
    let m = match v.get_str("msg") {
        Some(s) => s.clone(),
        None => {
            return None;
        },
    };
    let rid = match v.get_str("ruleId") {
        Some(s) => s.clone(),
        None => {
            return None;
        },
    };
    let ctx_ok = match v.get("context") {
        None => true,
        Some(j) => match j {
            Json::Null => true,
            Json::Str(_) => true,
            _ => false,
        },
    };
    if !ctx_ok {
        return None;
    }
    let _co = match field_str_or_default(v, "contextoffset") {
        Some(s) => s,
        None => {
            return None;
        },
    };
    let el = match field_str_or_default(v, "errorlength") {
        Some(s) => s,
        None => {
            return None;
        },
    };
    let fx = match field_str_or_default(v, "fromx") {
        Some(s) => s,
        None => {
            return None;
        },
    };
    let _fy = match field_str_or_default(v, "fromy") {
        Some(s) => s,
        None => {
            return None;
        },
    };
    let tx = match field_str_or_default(v, "tox") {
        Some(s) => s,
        None => {
            return None;
        },
    };
    let _ty = match field_str_or_default(v, "toy") {
        Some(s) => s,
        None => {
            return None;
        },
    };
    let start = parse_offset(fx.as_str());
    let tox = parse_offset(tx.as_str());
    let end: usize = if tox > 0 {
        tox
    } else {
        let errlen = parse_offset(el.as_str());
        let sum: u64 = start as u64 + errlen as u64;
        if sum > 0xffff_ffffu64 {
            0xffff_ffffu64 as usize
        } else {
            sum as usize
        }
    };
    let issue = GrammarIssue {
        code: rid,
        message: m,
        start,
        end,
        suggestions: Vec::new(),
    };
    proof {
        assert(issue@.suggestions =~= Seq::<Seq<char>>::empty());
    }
    Some(issue)
}

/// Read all wire objects of an upstream array document.
fn issues_from_wire(v: &Json) -> (r: Option<Vec<GrammarIssue>>)
    ensures
        match r {
            Some(out) => sp_issues_of_wire(v@) matches Some(ivs) && ivs.len() == out@.len()
                && forall|k: int| 0 <= k < out@.len() ==> ivs[k] == (#[trigger] out@[k])@,
            None => sp_issues_of_wire(v@) is None,
        },
{
    match v {
        Json::Arr(items) => {
            proof {
                lemma_view_seq_len(items@);
                assert(json_view_seq(items@).skip(0) =~= json_view_seq(items@));
            }
            let ghost full = json_view_seq(items@);
            let n = items.len();
            let mut out: Vec<GrammarIssue> = Vec::new();
            let mut i: usize = 0;
            while i < n
                invariant
                    n == items@.len(),
                    i <= n,
                    v@ == JsonV::Arr(full),
                    full == json_view_seq(items@),
                    full.len() == n,
                    forall|k: int| 0 <= k < n ==> full[k] == json_view(#[trigger] items@[k]),
                    match sp_issue_list(full.skip(i as int)) {
                        Some(rest) => sp_issue_list(full) matches Some(all) && all == Seq::new(
                            out@.len(),
                            |k: int| (out@[k])@,
                        ) + rest,
                        None => sp_issue_list(full) is None,
                    },
                decreases n - i,
            {
                proof {
                    assert(full.skip(i as int).first() == full[i as int]);
                    assert(full.skip(i as int).drop_first() =~= full.skip(i as int + 1));
                }
                match issue_from_wire(&items[i]) {
                    Some(iv) => {
                        let ghost before = Seq::new(out@.len(), |k: int| (out@[k])@);
                        let ghost ivv = iv@;
                        out.push(iv);
                        proof {
                            assert(Seq::new(out@.len(), |k: int| (out@[k])@) =~= before.push(ivv));
                            if let Some(rest) = sp_issue_list(full.skip(i as int + 1)) {
                                assert(before + (seq![ivv] + rest) =~= before.push(ivv) + rest);
                            }
                        }
                    },
                    None => {
                        proof {
                            assert(sp_issue_list(full.skip(i as int)) is None);
                        }
                        return None;
                    },
                }
                i = i + 1;
            }
            proof {
                assert(full.skip(n as int).len() == 0);
                assert(Seq::new(out@.len(), |k: int| (out@[k])@) + Seq::<GrammarIssueV>::empty()
                    =~= Seq::new(out@.len(), |k: int| (out@[k])@));
            }
            Some(out)
        },
        _ => None,
    }
}

/// What a successful upstream body yields: its issues, or a descriptive
/// error when it cannot be decoded or has the wrong shape.
pub open spec fn sp_grammar_body(body: Seq<char>) -> Result<Seq<GrammarIssueV>, Seq<char>> {
    match sp_parse_json(body) {
        None => Err(crate::gaelspell::sp_bad_upstream_json_msg()),
        Some(v) => match sp_issues_of_wire(v) {
            Some(ivs) => Ok(ivs),
            None => Err(crate::gaelspell::sp_bad_upstream_shape_msg()),
        },
    }
}

/// Read an upstream response body into issues.
pub fn parse_grammar_response(body: &str) -> (r: Result<Vec<GrammarIssue>, String>)
    ensures
        match r {
            Ok(out) => sp_grammar_body(body@) matches Ok(ivs) && ivs.len() == out@.len() && forall|
                k: int,
            |
                0 <= k < out@.len() ==> ivs[k] == (#[trigger] out@[k])@,
            Err(e) => sp_grammar_body(body@) == Err::<Seq<GrammarIssueV>, Seq<char>>(e@),
        },
{
    match parse_json(body) {
        None => Err(String::from_str("invalid JSON from upstream")),
        Some(v) => match issues_from_wire(&v) {
            Some(out) => Ok(out),
            None => Err(String::from_str("unexpected upstream response shape")),
        },
    }
}

/// What the adapter surfaces for each possible outcome of the POST: the
/// transport error as it stands, a status message for a non-success
/// response, or the normalized issues of a successful body.
pub open spec fn sp_analyze_finish(o: RemoteOutcomeV) -> Result<Seq<GrammarIssueV>, Seq<char>> {
    match o {
        RemoteOutcomeV::Transport(e) => Err(e),
        RemoteOutcomeV::Http { status, body } => if !sp_status_success(status) {
            Err(sp_status_err_msg(status))
        } else {
            sp_grammar_body(body)
        },
    }
}

/// The adapter for the Gramadóir remote service.
#[derive(Debug)]
pub struct GramadoirRemote {
    pub base: String,
    pub retries: u32,
}

impl GramadoirRemote {
    /// An adapter for the service at `base`, with the default retry
    /// budget.
    pub fn new(base: String) -> (c: Self)
        ensures
            c.base@ == base@,
            c.retries == 2u32,
    {
        GramadoirRemote { base, retries: 2 }
    }

    /// An adapter configured from a tool configuration: a missing base
    /// URL becomes empty, a missing retry budget the default.
    pub fn from_config(cfg: &ToolConfig) -> (c: Self)
        ensures
            c.base@ == (match cfg.base_url {
                Some(u) => u@,
                None => Seq::<char>::empty(),
            }),
            c.retries == (match cfg.retries {
                Some(r) => r,
                None => 2u32,
            }),
    {
        let base = match &cfg.base_url {
            Some(u) => u.clone(),
            None => String::new(),
        };
        let retries = match cfg.retries {
            Some(r) => r,
            None => 2,
        };
        GramadoirRemote { base, retries }
    }

    /// The POST the adapter asks the transport to perform for `text`.
    pub fn analyze_request(&self, text: &str) -> (r: RemoteRequest)
        ensures
            r@.url == sp_trim_slashes(self.base@) + "/api/gramadoir/1.0"@,
            r@.body == sp_ser(JsonV::Obj(seq![("teacs"@, JsonV::Str(text@))])),
            r@.retries == self.retries,
    {
        let url = endpoint_url(self.base.as_str(), "/api/gramadoir/1.0");
        let mut members: Vec<(String, Json)> = Vec::new();
        members.push((String::from_str("teacs"), Json::Str(String::from_str(text))));
        proof {
            crate::json::lemma_view_members_len(members@);
            assert(crate::json::json_view_members(members@) =~= seq![
                ("teacs"@, JsonV::Str(text@)),
            ]);
        }
        let payload = Json::Obj(members);
        let body = json_to_string(&payload);
        RemoteRequest { url, body, retries: self.retries }
    }

    /// The URL of the upstream health probe.
    pub fn health_url(&self) -> (u: String)
        ensures
            u@ == sp_trim_slashes(self.base@) + "/health"@,
    {
        endpoint_url(self.base.as_str(), "/health")
    }

    /// What the adapter returns for a given outcome of the POST.
    pub fn analyze_finish(outcome: &RemoteOutcome) -> (r: Result<Vec<GrammarIssue>, String>)
        ensures
            match r {
                Ok(out) => sp_analyze_finish(outcome@) matches Ok(ivs) && ivs.len() == out@.len()
                    && forall|k: int| 0 <= k < out@.len() ==> ivs[k] == (#[trigger] out@[k])@,
                Err(e) => sp_analyze_finish(outcome@) == Err::<Seq<GrammarIssueV>, Seq<char>>(e@),
            },
    {
        match outcome {
            RemoteOutcome::Transport(e) => Err(e.clone()),
            RemoteOutcome::Http { status, body } => {
                if !(200 <= *status && *status < 300) {
                    Err(crate::remote::status_err_msg(*status))
                } else {
                    parse_grammar_response(body.as_str())
                }
            },
        }
    }
}


/// The document form of one issue.
pub open spec fn sp_issue_json(iv: GrammarIssueV) -> JsonV {
    JsonV::Obj(
        seq![
            ("code"@, JsonV::Str(iv.code)),
            ("message"@, JsonV::Str(iv.message)),
            ("start"@, JsonV::Int(iv.start)),
            ("end"@, JsonV::Int(iv.end)),
            (
                "suggestions"@,
                JsonV::Arr(Seq::new(iv.suggestions.len(), |i: int| JsonV::Str(iv.suggestions[i]))),
            ),
        ],
    )
}

/// The document form of a grammar result: `{"issues": [...]}`.
pub open spec fn sp_issues_result_json(ivs: Seq<GrammarIssueV>) -> JsonV {
    JsonV::Obj(
        seq![("issues"@, JsonV::Arr(Seq::new(ivs.len(), |i: int| sp_issue_json(ivs[i]))))],
    )
}

/// A wire-read issue keeps its offsets within 32 bits.
pub proof fn lemma_issue_of_wire_bounds(v: JsonV)
    ensures
        sp_issue_of_wire(v) matches Some(iv) ==> 0 <= iv.start <= u32::MAX && 0 <= iv.end
            <= u32::MAX,
{
}

/// Every wire-read issue of a list keeps its offsets within 32 bits.
pub proof fn lemma_issue_list_bounds(items: Seq<JsonV>)
    ensures
        sp_issue_list(items) matches Some(ivs) ==> forall|k: int|
            0 <= k < ivs.len() ==> 0 <= (#[trigger] ivs[k]).start <= u32::MAX && 0 <= ivs[k].end
                <= u32::MAX,
    decreases items.len(),
{
    if items.len() > 0 {
        lemma_issue_of_wire_bounds(items.first());
        lemma_issue_list_bounds(items.drop_first());
    }
}

/// The document form of one issue.
pub fn issue_to_json(iv: &GrammarIssue) -> (r: Json)
    requires
        iv.start <= i64::MAX,
        iv.end <= i64::MAX,
    ensures
        r@ == sp_issue_json(iv@),
{
    let mut members: Vec<(String, Json)> = Vec::new();
    members.push((String::from_str("code"), Json::Str(iv.code.clone())));
    members.push((String::from_str("message"), Json::Str(iv.message.clone())));
    members.push((String::from_str("start"), Json::Int(iv.start as i64)));
    members.push((String::from_str("end"), Json::Int(iv.end as i64)));
    members.push((String::from_str("suggestions"), crate::json::strings_to_json(&iv.suggestions)));
    proof {
        crate::json::lemma_view_members_len(members@);
        assert(members@[0].0@ == "code"@ && members@[0].1@ == JsonV::Str(iv.code@));
        assert(members@[1].0@ == "message"@ && members@[1].1@ == JsonV::Str(iv.message@));
        assert(members@[2].0@ == "start"@ && members@[2].1@ == JsonV::Int(iv.start as int));
        assert(members@[3].0@ == "end"@ && members@[3].1@ == JsonV::Int(iv.end as int));
        assert(members@[4].0@ == "suggestions"@);
        assert(crate::json::json_view_members(members@) =~= seq![
            ("code"@, JsonV::Str(iv.code@)),
            ("message"@, JsonV::Str(iv.message@)),
            ("start"@, JsonV::Int(iv.start as int)),
            ("end"@, JsonV::Int(iv.end as int)),
            (
                "suggestions"@,
                JsonV::Arr(
                    Seq::new(iv.suggestions@.len(), |i: int| JsonV::Str(iv.suggestions@[i]@)),
                ),
            ),
        ]);
        assert(Seq::new(iv.suggestions@.len(), |i: int| JsonV::Str(iv.suggestions@[i]@))
            =~= Seq::new(iv@.suggestions.len(), |i: int| JsonV::Str(iv@.suggestions[i])));
    }
    Json::Obj(members)
}

/// The document form of a grammar result.
pub fn grammar_result_json(issues: &Vec<GrammarIssue>) -> (r: Json)
    requires
        forall|k: int|
            0 <= k < issues@.len() ==> (#[trigger] issues@[k]).start <= i64::MAX
                && issues@[k].end <= i64::MAX,
    ensures
        r@ == sp_issues_result_json(Seq::new(issues@.len(), |i: int| issues@[i]@)),
{
    let ghost ivs = Seq::new(issues@.len(), |i: int| issues@[i]@);
    let n = issues.len();
    let mut arr: Vec<Json> = Vec::new();
    let mut i: usize = 0;
    while i < n
        invariant
            n == issues@.len(),
            i <= n,
            ivs == Seq::new(issues@.len(), |k: int| issues@[k]@),
            forall|k: int|
                0 <= k < n ==> (#[trigger] issues@[k]).start <= i64::MAX && issues@[k].end
                    <= i64::MAX,
            arr@.len() == i,
            forall|k: int|
                0 <= k < i ==> json_view(#[trigger] arr@[k]) == sp_issue_json(issues@[k]@),
        decreases n - i,
    {
        let j = issue_to_json(&issues[i]);
        arr.push(j);
        i = i + 1;
    }
    proof {
        lemma_view_seq_len(arr@);
        assert forall|k: int| 0 <= k < arr@.len() implies json_view_seq(arr@)[k] == sp_issue_json(
            ivs[k],
        ) by {
            assert(json_view_seq(arr@)[k] == json_view(arr@[k]));
        }
        assert(json_view_seq(arr@) =~= Seq::new(ivs.len(), |i: int| sp_issue_json(ivs[i])));
    }
    let mut members: Vec<(String, Json)> = Vec::new();
    members.push((String::from_str("issues"), Json::Arr(arr)));
    proof {
        crate::json::lemma_view_members_len(members@);
        assert(members@[0].0@ == "issues"@);
        assert(crate::json::json_view_members(members@) =~= seq![
            ("issues"@, JsonV::Arr(Seq::new(ivs.len(), |i: int| sp_issue_json(ivs[i])))),
        ]);
    }
    Json::Obj(members)
}

} // verus!
