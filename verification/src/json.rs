//! The JSON document model the gateway speaks on the wire.
//!
//! [`Json`] is the executable document; [`JsonV`] is its mathematical view:
//! strings become character sequences, numbers unbounded integers, arrays
//! and objects sequences.  Objects keep their members in insertion order;
//! lookup returns the first binding for a key.
//!
//! Numbers are integers: the envelope and both upstream wire formats carry
//! only integral numbers (offsets arrive as *strings*), so a document with
//! a fractional or out-of-range number is treated as undecodable.

use vstd::prelude::*;

verus! {

/// Mathematical view of a JSON document.
pub enum JsonV {
    Null,
    Bool(bool),
    Int(int),
    Str(Seq<char>),
    Arr(Seq<JsonV>),
    Obj(Seq<(Seq<char>, JsonV)>),
}

/// An executable JSON document.
#[derive(Debug)]
pub enum Json {
    Null,
    Bool(bool),
    Int(i64),
    Str(String),
    Arr(Vec<Json>),
    Obj(Vec<(String, Json)>),
}

/// The view of an executable document.
pub open spec fn json_view(j: Json) -> JsonV
    decreases j,
{
    match j {
        Json::Null => JsonV::Null,
        Json::Bool(b) => JsonV::Bool(b),
        Json::Int(n) => JsonV::Int(n as int),
        Json::Str(s) => JsonV::Str(s@),
        Json::Arr(items) => JsonV::Arr(json_view_seq(items@)),
        Json::Obj(members) => JsonV::Obj(json_view_members(members@)),
    }
}

/// The view of a sequence of documents, element-wise.
pub open spec fn json_view_seq(items: Seq<Json>) -> Seq<JsonV>
    decreases items,
{
    if items.len() == 0 {
        Seq::empty()
    } else {
        seq![json_view(items.first())] + json_view_seq(items.drop_first())
    }
}

/// The view of a sequence of object members, element-wise.
pub open spec fn json_view_members(members: Seq<(String, Json)>) -> Seq<(Seq<char>, JsonV)>
    decreases members,
{
    if members.len() == 0 {
        Seq::empty()
    } else {
        seq![(members.first().0@, json_view(members.first().1))] + json_view_members(
            members.drop_first(),
        )
    }
}

impl View for Json {
    type V = JsonV;

    open spec fn view(&self) -> JsonV {
        json_view(*self)
    }
}

/// The element views line up index by index.
pub proof fn lemma_view_seq_len(items: Seq<Json>)
    ensures
        json_view_seq(items).len() == items.len(),
        forall|i: int|
            0 <= i < items.len() ==> json_view_seq(items)[i] == json_view(#[trigger] items[i]),
    decreases items,
{
    if items.len() > 0 {
        lemma_view_seq_len(items.drop_first());
        assert forall|i: int| 0 <= i < items.len() implies json_view_seq(items)[i] == json_view(
            #[trigger] items[i],
        ) by {
            if i > 0 {
                assert(items.drop_first()[i - 1] == items[i]);
            }
        }
    }
}

/// The member views line up index by index.
pub proof fn lemma_view_members_len(members: Seq<(String, Json)>)
    ensures
        json_view_members(members).len() == members.len(),
        forall|i: int|
            0 <= i < members.len() ==> json_view_members(members)[i] == (
            (#[trigger] members[i]).0@,
            json_view(members[i].1),
            ),
    decreases members,
{
    if members.len() > 0 {
        lemma_view_members_len(members.drop_first());
        assert forall|i: int| 0 <= i < members.len() implies json_view_members(members)[i] == (
            (#[trigger] members[i]).0@,
            json_view(members[i].1),
        ) by {
            if i > 0 {
                assert(members.drop_first()[i - 1] == members[i]);
            }
        }
    }
}

/// The first binding for `key` among object members, if any.
pub open spec fn sp_obj_get(members: Seq<(Seq<char>, JsonV)>, key: Seq<char>) -> Option<JsonV>
    decreases members.len(),
{
    if members.len() == 0 {
        None
    } else if members.first().0 == key {
        Some(members.first().1)
    } else {
        sp_obj_get(members.drop_first(), key)
    }
}

/// The value a document holds at `key`: the first binding when the
/// document is an object that has one, nothing otherwise.
pub open spec fn sp_get(v: JsonV, key: Seq<char>) -> Option<JsonV> {
    match v {
        JsonV::Obj(members) => sp_obj_get(members, key),
        _ => None,
    }
}


/// Sequences of documents with equal element views have equal views.
pub proof fn lemma_view_seq_ext(a: Seq<Json>, b: Seq<Json>)
    requires
        a.len() == b.len(),
        forall|i: int| 0 <= i < a.len() ==> json_view(#[trigger] a[i]) == json_view(b[i]),
    ensures
        json_view_seq(a) == json_view_seq(b),
{
    lemma_view_seq_len(a);
    lemma_view_seq_len(b);
    assert forall|i: int| 0 <= i < a.len() implies json_view_seq(a)[i] == json_view_seq(b)[i] by {
        assert(json_view_seq(a)[i] == json_view(a[i]));
        assert(json_view_seq(b)[i] == json_view(b[i]));
    }
    assert(json_view_seq(a) =~= json_view_seq(b));
}

/// Member sequences with equal keys and equal value views have equal
/// views.
pub proof fn lemma_view_members_ext(a: Seq<(String, Json)>, b: Seq<(String, Json)>)
    requires
        a.len() == b.len(),
        forall|i: int|
            0 <= i < a.len() ==> (#[trigger] a[i]).0@ == b[i].0@ && json_view(a[i].1) == json_view(
                b[i].1,
            ),
    ensures
        json_view_members(a) == json_view_members(b),
{
    lemma_view_members_len(a);
    lemma_view_members_len(b);
    assert forall|i: int|
        0 <= i < a.len() implies json_view_members(a)[i] == json_view_members(b)[i] by {
        assert(json_view_members(a)[i] == (a[i].0@, json_view(a[i].1)));
        assert(json_view_members(b)[i] == (b[i].0@, json_view(b[i].1)));
    }
    assert(json_view_members(a) =~= json_view_members(b));
}

impl Json {

    /// A structurally equal copy of the document.
    #[verifier::loop_isolation(false)]
    pub fn deep_clone(&self) -> (r: Json)
        ensures
            r@ == self@,
        decreases *self,
    {
        match self {
            Json::Null => Json::Null,
            Json::Bool(b) => Json::Bool(*b),
            Json::Int(n) => Json::Int(*n),
            Json::Str(s) => Json::Str(s.clone()),
            Json::Arr(items) => {
                let n = items.len();
                let mut out: Vec<Json> = Vec::new();
                let mut i: usize = 0;
                while i < n
                    invariant
                        n == items@.len(),
                        i <= n,
                        out@.len() == i,
                        forall|k: int|
                            0 <= k < i ==> json_view(#[trigger] out@[k]) == json_view(items@[k]),
                    decreases n - i,
                {
                    let c = items[i].deep_clone();
                    out.push(c);
                    i = i + 1;
                }
                proof {
                    lemma_view_seq_ext(out@, items@);
                }
                Json::Arr(out)
            },
            Json::Obj(members) => {
                let n = members.len();
                let mut out: Vec<(String, Json)> = Vec::new();
                let mut i: usize = 0;
                while i < n
                    invariant
                        n == members@.len(),
                        i <= n,
                        out@.len() == i,
                        forall|k: int|
                            0 <= k < i ==> (#[trigger] out@[k]).0@ == members@[k].0@ && json_view(
                                out@[k].1,
                            ) == json_view(members@[k].1),
                    decreases n - i,
                {
                    let key = members[i].0.clone();
                    let val = members[i].1.deep_clone();
                    out.push((key, val));
                    i = i + 1;
                }
                proof {
                    lemma_view_members_ext(out@, members@);
                }
                Json::Obj(out)
            },
        }
    }

    /// Look up `key` in an object document.
    pub fn get<'a>(&'a self, key: &str) -> (r: Option<&'a Json>)
        ensures
            match r {
                Some(v) => sp_get(self@, key@) == Some(v@),
                None => sp_get(self@, key@) is None,
            },
    {
        match self {
            Json::Obj(members) => {
                proof {
                    lemma_view_members_len(members@);
                    assert(json_view_members(members@).skip(0) =~= json_view_members(members@));
                }
                let n = members.len();
                let mut i: usize = 0;
                while i < n
                    invariant
                        n == members@.len(),
                        i <= n,
                        self@ == JsonV::Obj(json_view_members(members@)),
                        json_view_members(members@).len() == members@.len(),
                        forall|k: int|
                            0 <= k < members@.len() ==> json_view_members(members@)[k] == (
                            (#[trigger] members@[k]).0@,
                            json_view(members@[k].1),
                            ),
                        sp_obj_get(json_view_members(members@), key@) == sp_obj_get(
                            json_view_members(members@).skip(i as int),
                            key@,
                        ),
                    decreases n - i,
                {
                    proof {
                        assert(json_view_members(members@).skip(i as int).first()
                            == json_view_members(members@)[i as int]);
                        assert(json_view_members(members@).skip(i as int).drop_first()
                            =~= json_view_members(members@).skip(i as int + 1));
                    }
                    if crate::text::str_eq(members[i].0.as_str(), key) {
                        return Some(&members[i].1);
                    }
                    i = i + 1;
                }
                proof {
                    assert(json_view_members(members@).skip(n as int).len() == 0);
                }
                None
            },
            _ => None,
        }
    }

    /// The string a document holds, if it is a string.
    pub fn as_str<'a>(&'a self) -> (r: Option<&'a String>)
        ensures
            match r {
                Some(s) => self@ == JsonV::Str(s@),
                None => !(self@ is Str),
            },
    {
        match self {
            Json::Str(s) => Some(s),
            _ => None,
        }
    }

    /// The string value at `key`, when the document is an object whose
    /// binding there is a string.
    pub fn get_str<'a>(&'a self, key: &str) -> (r: Option<&'a String>)
        ensures
            match r {
                Some(s) => sp_get(self@, key@) == Some(JsonV::Str(s@)),
                None => !(sp_get(self@, key@) matches Some(v) && v is Str),
            },
    {
        match self.get(key) {
            Some(v) => v.as_str(),
            None => None,
        }
    }
}


/// The document form of a list of strings.
pub fn strings_to_json(v: &Vec<String>) -> (r: Json)
    ensures
        r@ == JsonV::Arr(Seq::new(v@.len(), |i: int| JsonV::Str(v@[i]@))),
{
    let n = v.len();
    let mut out: Vec<Json> = Vec::new();
    let mut i: usize = 0;
    while i < n
        invariant
            n == v@.len(),
            i <= n,
            out@.len() == i,
            forall|k: int| 0 <= k < i ==> json_view(#[trigger] out@[k]) == JsonV::Str(v@[k]@),
        decreases n - i,
    {
        out.push(Json::Str(v[i].clone()));
        i = i + 1;
    }
    proof {
        lemma_view_seq_len(out@);
        assert forall|k: int| 0 <= k < out@.len() implies json_view_seq(out@)[k] == JsonV::Str(
            v@[k]@,
        ) by {
            assert(json_view_seq(out@)[k] == json_view(out@[k]));
        }
        assert(json_view_seq(out@) =~= Seq::new(v@.len(), |i: int| JsonV::Str(v@[i]@)));
    }
    Json::Arr(out)
}

} // verus!
