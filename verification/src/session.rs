//! A pluggable session store, with an in-memory implementation: the
//! record of values set per key, where the last write for a key wins.

use vstd::prelude::*;

verus! {

/// A store of string values by key.
pub trait SessionStore {
    /// The value most recently set for `key`, if any.
    fn get(&self, key: &str) -> Option<String>;

    /// Bind `key` to `value`, replacing any earlier binding.
    fn set(&mut self, key: &str, value: String);
}

/// The value the latest binding of `key` carries, scanning from the most
/// recent entry.
pub open spec fn sp_store_get(entries: Seq<(Seq<char>, Seq<char>)>, key: Seq<char>) -> Option<
    Seq<char>,
>
    decreases entries.len(),
{
    if entries.len() == 0 {
        None
    } else if entries.last().0 == key {
        Some(entries.last().1)
    } else {
        sp_store_get(entries.drop_last(), key)
    }
}

/// An in-memory session store: the history of bindings in order, where
/// lookup takes the most recent one for a key.
#[derive(Debug)]
pub struct InMemorySessionStore {
    entries: Vec<(String, String)>,
}

impl View for InMemorySessionStore {
    type V = Seq<(Seq<char>, Seq<char>)>;

    closed spec fn view(&self) -> Seq<(Seq<char>, Seq<char>)> {
        Seq::new(self.entries@.len(), |i: int| (self.entries@[i].0@, self.entries@[i].1@))
    }
}

impl InMemorySessionStore {
    /// An empty store.
    pub fn new() -> (s: Self)
        ensures
            s@ =~= Seq::<(Seq<char>, Seq<char>)>::empty(),
    {
        InMemorySessionStore { entries: Vec::new() }
    }

    /// The value most recently set for `key`, if any.
    pub fn lookup(&self, key: &str) -> (r: Option<String>)
        ensures
            match r {
                Some(v) => sp_store_get(self@, key@) == Some(v@),
                None => sp_store_get(self@, key@) is None,
            },
    {
        let n = self.entries.len();
        proof {
            assert(self@.take(n as int) =~= self@);
        }
        let mut i: usize = n;
        while i > 0
            invariant
                n == self.entries@.len(),
                i <= n,
                self@.len() == n,
                forall|k: int|
                    0 <= k < n ==> self@[k] == ((#[trigger] self.entries@[k]).0@,
                    self.entries@[k].1@),
                sp_store_get(self@, key@) == sp_store_get(self@.take(i as int), key@),
            decreases i,
        {
            proof {
                assert(self@.take(i as int).last() == self@[i - 1]);
                assert(self@.take(i as int).drop_last() =~= self@.take(i as int - 1));
            }
            if crate::text::str_eq(self.entries[i - 1].0.as_str(), key) {
                return Some(self.entries[i - 1].1.clone());
            }
            i = i - 1;
        }
        proof {
            assert(self@.take(0).len() == 0);
        }
        None
    }

    /// Bind `key` to `value`; lookups for it now find this value.
    pub fn put(&mut self, key: &str, value: String)
        ensures
            final(self)@ =~= old(self)@.push((key@, value@)),
            sp_store_get(final(self)@, key@) == Some(value@),
    {
        let pair = (String::from_str(key), value);
        self.entries.push(pair);
        proof {
            assert(self@ =~= old(self)@.push((key@, value@)));
            assert(self@.last() == (key@, value@));
        }
    }
}

impl Default for InMemorySessionStore {
    /// An empty store.
    fn default() -> (s: Self)
        ensures
            s@ =~= Seq::<(Seq<char>, Seq<char>)>::empty(),
    {
        InMemorySessionStore::new()
    }
}

impl SessionStore for InMemorySessionStore {
    fn get(&self, key: &str) -> Option<String> {
        self.lookup(key)
    }

    fn set(&mut self, key: &str, value: String) {
        self.put(key, value);
    }
}

} // verus!
