//! The spellcheck remote adapter: the request payload sent to the
//! GaelSpell service, and the normalization of its wire format — an array
//! of `[token, [suggestions...]]` pairs — into [`Correction`] values.

use crate::config::ToolConfig;
use crate::json::{json_view, json_view_seq, lemma_view_seq_len, Json, JsonV};
use crate::json_parse::{parse_json, sp_parse_json};
use crate::json_ser::{json_to_string, sp_ser};
use crate::remote::{
    endpoint_url, sp_status_err_msg, sp_status_success, sp_trim_slashes, RemoteOutcome,
    RemoteOutcomeV, RemoteRequest,
};
use vstd::prelude::*;

verus! {

/// Mathematical view of a normalized spelling correction.
pub ghost struct CorrectionV {
    pub token: Seq<char>,
    pub start: int,
    pub end: int,
    pub suggestions: Seq<Seq<char>>,
}

/// A normalized spelling correction.  The upstream wire format carries no
/// offsets, so both stand at zero.
#[derive(Debug)]
pub struct Correction {
    pub token: String,
    pub start: usize,
    pub end: usize,
    pub suggestions: Vec<String>,
}

impl View for Correction {
    type V = CorrectionV;

    open spec fn view(&self) -> CorrectionV {
        CorrectionV {
            token: self.token@,
            start: self.start as int,
            end: self.end as int,
            suggestions: Seq::new(self.suggestions@.len(), |i: int| self.suggestions@[i]@),
        }
    }
}

/// The strings an all-string document sequence holds, if it is one.
pub open spec fn sp_strs_of(items: Seq<JsonV>) -> Option<Seq<Seq<char>>>
    decreases items.len(),
{
    if items.len() == 0 {
        Some(Seq::empty())
    } else {
        match items.first() {
            JsonV::Str(s) => match sp_strs_of(items.drop_first()) {
                Some(r) => Some(seq![s] + r),
                None => None,
            },
            _ => None,
        }
    }
}

/// The correction one wire pair denotes: exactly a token string and an
/// array of suggestion strings.
pub open spec fn sp_correction_of_wire(v: JsonV) -> Option<CorrectionV> {
    match v {
        JsonV::Arr(items) => if items.len() == 2 {
            match (items[0], items[1]) {
                (JsonV::Str(tok), JsonV::Arr(sugg)) => match sp_strs_of(sugg) {
                    Some(ss) => Some(
                        CorrectionV { token: tok, start: 0, end: 0, suggestions: ss },
                    ),
                    None => None,
                },
                _ => None,
            }
        } else {
            None
        },
        _ => None,
    }
}

/// The corrections a sequence of wire pairs denotes.
pub open spec fn sp_correction_list(items: Seq<JsonV>) -> Option<Seq<CorrectionV>>
    decreases items.len(),
{
    if items.len() == 0 {
        Some(Seq::empty())
    } else {
        match sp_correction_of_wire(items.first()) {
            Some(c) => match sp_correction_list(items.drop_first()) {
                Some(r) => Some(seq![c] + r),
                None => None,
            },
            None => None,
        }
    }
}

/// The corrections a whole upstream document denotes: it must be an
/// array of wire pairs.
pub open spec fn sp_corrections_of_wire(v: JsonV) -> Option<Seq<CorrectionV>> {
    match v {
        JsonV::Arr(items) => sp_correction_list(items),
        _ => None,
    }
}

/// Read the suggestion strings out of a document array.
fn strs_from_json(items: &Vec<Json>) -> (r: Option<Vec<String>>)
    ensures
        match r {
            Some(out) => sp_strs_of(json_view_seq(items@)) == Some(
                Seq::new(out@.len(), |i: int| out@[i]@),
            ),
            None => sp_strs_of(json_view_seq(items@)) is None,
        },
{
    proof {
        lemma_view_seq_len(items@);
        assert(json_view_seq(items@).skip(0) =~= json_view_seq(items@));
    }
    let ghost full = json_view_seq(items@);
    let n = items.len();
    let mut out: Vec<String> = Vec::new();
    let mut i: usize = 0;
    while i < n
        invariant
            n == items@.len(),
            i <= n,
            full == json_view_seq(items@),
            full.len() == n,
            forall|k: int| 0 <= k < n ==> full[k] == json_view(#[trigger] items@[k]),
            match sp_strs_of(full.skip(i as int)) {
                Some(rest) => sp_strs_of(full) matches Some(all) && all == Seq::new(
                    out@.len(),
                    |k: int| out@[k]@,
                ) + rest,
                None => sp_strs_of(full) is None,
            },
        decreases n - i,
    {
        proof {
            assert(full.skip(i as int).first() == full[i as int]);
            assert(full.skip(i as int).drop_first() =~= full.skip(i as int + 1));
        }
        match &items[i] {
            Json::Str(s) => {
                let ghost before = Seq::new(out@.len(), |k: int| out@[k]@);
                out.push(s.clone());
                proof {
                    assert(Seq::new(out@.len(), |k: int| out@[k]@) =~= before.push(s@));
                    if let Some(rest) = sp_strs_of(full.skip(i as int + 1)) {
                        assert(before + (seq![s@] + rest) =~= before.push(s@) + rest);
                    }
                }
            },
            _ => {
                proof {
                    assert(!(full[i as int] is Str));
                }
                return None;
            },
        }
        i = i + 1;
    }
    proof {
        assert(full.skip(n as int).len() == 0);
        assert(Seq::new(out@.len(), |k: int| out@[k]@) + Seq::<Seq<char>>::empty() =~= Seq::new(
            out@.len(),
            |k: int| out@[k]@,
        ));
    }
    Some(out)
}

/// Read one wire pair into a correction.
fn correction_from_wire(v: &Json) -> (r: Option<Correction>)
    ensures
        match r {
            Some(c) => sp_correction_of_wire(v@) == Some(c@),
            None => sp_correction_of_wire(v@) is None,
        },
{
    match v {
        Json::Arr(items) => {
            proof {
                lemma_view_seq_len(items@);
            }
            if items.len() != 2 {
                return None;
            }
            let tok = match &items[0] {
                Json::Str(s) => s.clone(),
                _ => {
                    return None;
                },
            };
            match &items[1] {
                Json::Arr(sugg) => {
                    match strs_from_json(sugg) {
                        Some(ss) => {
                            let c = Correction { token: tok, start: 0, end: 0, suggestions: ss };
                            proof {
                                assert(c@.suggestions =~= Seq::new(c.suggestions@.len(), |i: int| c.suggestions@[i]@));
                            }
                            Some(c)
                        },
                        None => None,
                    }
                },
                _ => None,
            }
        },
        _ => None,
    }
}

/// Read all wire pairs of an upstream array document.
fn corrections_from_wire(v: &Json) -> (r: Option<Vec<Correction>>)
    ensures
        match r {
            Some(out) => sp_corrections_of_wire(v@) matches Some(cs) && cs.len() == out@.len()
                && forall|k: int| 0 <= k < out@.len() ==> cs[k] == (#[trigger] out@[k])@,
            None => sp_corrections_of_wire(v@) is None,
        },
{
    match v {
        Json::Arr(items) => {
            proof {
                lemma_view_seq_len(items@);
                assert(json_view_seq(items@).skip(0) =~= json_view_seq(items@));
            }
            let ghost full = json_view_seq(items@);
            let n = items.len();
            let mut out: Vec<Correction> = Vec::new();
            let mut i: usize = 0;
            while i < n
                invariant
                    n == items@.len(),
                    i <= n,
                    v@ == JsonV::Arr(full),
                    full == json_view_seq(items@),
                    full.len() == n,
                    forall|k: int| 0 <= k < n ==> full[k] == json_view(#[trigger] items@[k]),
                    match sp_correction_list(full.skip(i as int)) {
                        Some(rest) => sp_correction_list(full) matches Some(all) && all
                            == Seq::new(out@.len(), |k: int| (out@[k])@) + rest,
                        None => sp_correction_list(full) is None,
                    },
                decreases n - i,
            {
                proof {
                    assert(full.skip(i as int).first() == full[i as int]);
                    assert(full.skip(i as int).drop_first() =~= full.skip(i as int + 1));
                }
                match correction_from_wire(&items[i]) {
                    Some(c) => {
                        let ghost before = Seq::new(out@.len(), |k: int| (out@[k])@);
                        let ghost cv = c@;
                        out.push(c);
                        proof {
                            assert(Seq::new(out@.len(), |k: int| (out@[k])@) =~= before.push(cv));
                            if let Some(rest) = sp_correction_list(full.skip(i as int + 1)) {
                                assert(before + (seq![cv] + rest) =~= before.push(cv) + rest);
                            }
                        }
                    },
                    None => {
                        proof {
                            assert(sp_correction_list(full.skip(i as int)) is None);
                        }
                        return None;
                    },
                }
                i = i + 1;
            }
            proof {
                assert(full.skip(n as int).len() == 0);
                assert(Seq::new(out@.len(), |k: int| (out@[k])@) + Seq::<CorrectionV>::empty()
                    =~= Seq::new(out@.len(), |k: int| (out@[k])@));
            }
            Some(out)
        },
        _ => None,
    }
}

/// The message surfaced when upstream bytes are not JSON.
pub open spec fn sp_bad_upstream_json_msg() -> Seq<char> {
    "invalid JSON from upstream"@
}

/// The message surfaced when upstream JSON has an unexpected shape.
pub open spec fn sp_bad_upstream_shape_msg() -> Seq<char> {
    "unexpected upstream response shape"@
}

/// What a successful upstream body yields: its corrections, or a
/// descriptive error when it cannot be decoded or has the wrong shape.
pub open spec fn sp_spell_body(body: Seq<char>) -> Result<Seq<CorrectionV>, Seq<char>> {
    match sp_parse_json(body) {
        None => Err(sp_bad_upstream_json_msg()),
        Some(v) => match sp_corrections_of_wire(v) {
            Some(cs) => Ok(cs),
            None => Err(sp_bad_upstream_shape_msg()),
        },
    }
}

/// Read an upstream response body into corrections.
pub fn parse_spell_response(body: &str) -> (r: Result<Vec<Correction>, String>)
    ensures
        match r {
            Ok(out) => sp_spell_body(body@) matches Ok(cs) && cs.len() == out@.len() && forall|
                k: int,
            |
                0 <= k < out@.len() ==> cs[k] == (#[trigger] out@[k])@,
            Err(e) => sp_spell_body(body@) == Err::<Seq<CorrectionV>, Seq<char>>(e@),
        },
{
    match parse_json(body) {
        None => Err(String::from_str("invalid JSON from upstream")),
        Some(v) => match corrections_from_wire(&v) {
            Some(out) => Ok(out),
            None => Err(String::from_str("unexpected upstream response shape")),
        },
    }
}

/// What the adapter surfaces for each possible outcome of the POST: the
/// transport error as it stands, a status message for a non-success
/// response, or the normalized corrections of a successful body.
pub open spec fn sp_spell_finish(o: RemoteOutcomeV) -> Result<Seq<CorrectionV>, Seq<char>> {
    match o {
        RemoteOutcomeV::Transport(e) => Err(e),
        RemoteOutcomeV::Http { status, body } => if !sp_status_success(status) {
            Err(sp_status_err_msg(status))
        } else {
            sp_spell_body(body)
        },
    }
}

/// The adapter for the GaelSpell remote service.
#[derive(Debug)]
pub struct GaelspellRemote {
    pub base: String,
    pub retries: u32,
}

impl GaelspellRemote {
    /// An adapter for the service at `base`, with the default retry
    /// budget.
    pub fn new(base: String) -> (c: Self)
        ensures
            c.base@ == base@,
            c.retries == 2u32,
    {
        GaelspellRemote { base, retries: 2 }
    }

    /// An adapter configured from a tool configuration: a missing base
    /// URL becomes empty, a missing retry budget the default.
    pub fn from_config(cfg: &ToolConfig) -> (c: Self)
        ensures
            c.base@ == (match cfg.base_url {
                Some(u) => u@,
                None => Seq::<char>::empty(),
            }),
            c.retries == (match cfg.retries {
                Some(r) => r,
                None => 2u32,
            }),
    {
        let base = match &cfg.base_url {
            Some(u) => u.clone(),
            None => String::new(),
        };
        let retries = match cfg.retries {
            Some(r) => r,
            None => 2,
        };
        GaelspellRemote { base, retries }
    }

    /// The POST the adapter asks the transport to perform for `text`.
    pub fn check_request(&self, text: &str) -> (r: RemoteRequest)
        ensures
            r@.url == sp_trim_slashes(self.base@) + "/api/gaelspell/1.0"@,
            r@.body == sp_ser(JsonV::Obj(seq![("teacs"@, JsonV::Str(text@))])),
            r@.retries == self.retries,
    {
        let url = endpoint_url(self.base.as_str(), "/api/gaelspell/1.0");
        let mut members: Vec<(String, Json)> = Vec::new();
        members.push((String::from_str("teacs"), Json::Str(String::from_str(text))));
        proof {
            crate::json::lemma_view_members_len(members@);
            assert(crate::json::json_view_members(members@) =~= seq![
                ("teacs"@, JsonV::Str(text@)),
            ]);
        }
        let payload = Json::Obj(members);
        let body = json_to_string(&payload);
        RemoteRequest { url, body, retries: self.retries }
    }

    /// The URL of the upstream health probe.
    pub fn health_url(&self) -> (u: String)
        ensures
            u@ == sp_trim_slashes(self.base@) + "/health"@,
    {
        endpoint_url(self.base.as_str(), "/health")
    }

    /// What the adapter returns for a given outcome of the POST.
    pub fn check_finish(outcome: &RemoteOutcome) -> (r: Result<Vec<Correction>, String>)
        ensures
            match r {
                Ok(out) => sp_spell_finish(outcome@) matches Ok(cs) && cs.len() == out@.len()
                    && forall|k: int| 0 <= k < out@.len() ==> cs[k] == (#[trigger] out@[k])@,
                Err(e) => sp_spell_finish(outcome@) == Err::<Seq<CorrectionV>, Seq<char>>(e@),
            },
    {
        match outcome {
            RemoteOutcome::Transport(e) => Err(e.clone()),
            RemoteOutcome::Http { status, body } => {
                if !(200 <= *status && *status < 300) {
                    Err(crate::remote::status_err_msg(*status))
                } else {
                    parse_spell_response(body.as_str())
                }
            },
        }
    }
}


/// The document form of one correction.
pub open spec fn sp_correction_json(c: CorrectionV) -> JsonV {
    JsonV::Obj(
        seq![
            ("token"@, JsonV::Str(c.token)),
            ("start"@, JsonV::Int(c.start)),
            ("end"@, JsonV::Int(c.end)),
            (
                "suggestions"@,
                JsonV::Arr(Seq::new(c.suggestions.len(), |i: int| JsonV::Str(c.suggestions[i]))),
            ),
        ],
    )
}

/// The document form of a spellcheck result: `{"corrections": [...]}`.
pub open spec fn sp_corrections_result_json(cs: Seq<CorrectionV>) -> JsonV {
    JsonV::Obj(
        seq![
            ("corrections"@, JsonV::Arr(Seq::new(cs.len(), |i: int| sp_correction_json(cs[i])))),
        ],
    )
}

/// A wire-read correction keeps its offsets at zero.
pub proof fn lemma_correction_of_wire_bounds(v: JsonV)
    ensures
        sp_correction_of_wire(v) matches Some(c) ==> c.start == 0 && c.end == 0,
{
}

/// Every wire-read correction of a list keeps its offsets at zero.
pub proof fn lemma_correction_list_bounds(items: Seq<JsonV>)
    ensures
        sp_correction_list(items) matches Some(cs) ==> forall|k: int|
            0 <= k < cs.len() ==> (#[trigger] cs[k]).start == 0 && cs[k].end == 0,
    decreases items.len(),
{
    if items.len() > 0 {
        lemma_correction_of_wire_bounds(items.first());
        lemma_correction_list_bounds(items.drop_first());
    }
}

/// The document form of one correction.
pub fn correction_to_json(c: &Correction) -> (r: Json)
    requires
        c.start <= i64::MAX,
        c.end <= i64::MAX,
    ensures
        r@ == sp_correction_json(c@),
{
    let mut members: Vec<(String, Json)> = Vec::new();
    members.push((String::from_str("token"), Json::Str(c.token.clone())));
    members.push((String::from_str("start"), Json::Int(c.start as i64)));
    members.push((String::from_str("end"), Json::Int(c.end as i64)));
    members.push((String::from_str("suggestions"), crate::json::strings_to_json(&c.suggestions)));
    proof {
        crate::json::lemma_view_members_len(members@);
        assert(members@[0].0@ == "token"@ && members@[0].1@ == JsonV::Str(c.token@));
        assert(members@[1].0@ == "start"@ && members@[1].1@ == JsonV::Int(c.start as int));
        assert(members@[2].0@ == "end"@ && members@[2].1@ == JsonV::Int(c.end as int));
        assert(members@[3].0@ == "suggestions"@);
        assert(crate::json::json_view_members(members@) =~= seq![
            ("token"@, JsonV::Str(c.token@)),
            ("start"@, JsonV::Int(c.start as int)),
            ("end"@, JsonV::Int(c.end as int)),
            (
                "suggestions"@,
                JsonV::Arr(Seq::new(c.suggestions@.len(), |i: int| JsonV::Str(c.suggestions@[i]@))),
            ),
        ]);
        assert(Seq::new(c.suggestions@.len(), |i: int| JsonV::Str(c.suggestions@[i]@)) =~= Seq::new(
            c@.suggestions.len(),
            |i: int| JsonV::Str(c@.suggestions[i]),
        ));
    }
    Json::Obj(members)
}

/// The document form of a spellcheck result.
pub fn spell_result_json(corrections: &Vec<Correction>) -> (r: Json)
    requires
        forall|k: int|
            0 <= k < corrections@.len() ==> (#[trigger] corrections@[k]).start <= i64::MAX
                && corrections@[k].end <= i64::MAX,
    ensures
        r@ == sp_corrections_result_json(Seq::new(corrections@.len(), |i: int| corrections@[i]@)),
{
    let ghost cs = Seq::new(corrections@.len(), |i: int| corrections@[i]@);
    let n = corrections.len();
    let mut arr: Vec<Json> = Vec::new();
    let mut i: usize = 0;
    while i < n
        invariant
            n == corrections@.len(),
            i <= n,
            cs == Seq::new(corrections@.len(), |k: int| corrections@[k]@),
            forall|k: int|
                0 <= k < n ==> (#[trigger] corrections@[k]).start <= i64::MAX
                    && corrections@[k].end <= i64::MAX,
            arr@.len() == i,
            forall|k: int|
                0 <= k < i ==> json_view(#[trigger] arr@[k]) == sp_correction_json(
                    corrections@[k]@,
                ),
        decreases n - i,
    {
        let j = correction_to_json(&corrections[i]);
        arr.push(j);
        i = i + 1;
    }
    proof {
        lemma_view_seq_len(arr@);
        assert forall|k: int|
            0 <= k < arr@.len() implies json_view_seq(arr@)[k] == sp_correction_json(cs[k]) by {
            assert(json_view_seq(arr@)[k] == json_view(arr@[k]));
        }
        assert(json_view_seq(arr@) =~= Seq::new(cs.len(), |i: int| sp_correction_json(cs[i])));
    }
    let mut members: Vec<(String, Json)> = Vec::new();
    members.push((String::from_str("corrections"), Json::Arr(arr)));
    proof {
        crate::json::lemma_view_members_len(members@);
        assert(members@[0].0@ == "corrections"@);
        assert(crate::json::json_view_members(members@) =~= seq![
            ("corrections"@, JsonV::Arr(Seq::new(cs.len(), |i: int| sp_correction_json(cs[i])))),
        ]);
    }
    Json::Obj(members)
}

} // verus!
