use vstd::prelude::*;
use vstd::string::{StrSliceExecFns, StringExecFns};

verus! {

/// The map that the pairs of `s` describe, a later pair for a key
/// overriding an earlier one.
pub open spec fn pairs_map(s: Seq<(Seq<char>, Seq<char>)>) -> Map<Seq<char>, Seq<char>>
    decreases s.len(),
{
    if s.len() == 0 {
        Map::empty()
    } else {
        pairs_map(s.drop_last()).insert(s.last().0, s.last().1)
    }
}

/// No two pairs of `s` share a key.
pub open spec fn keys_unique(s: Seq<(Seq<char>, Seq<char>)>) -> bool {
    forall|i: int, j: int|
        0 <= i < s.len() && 0 <= j < s.len() && i != j ==> #[trigger] s[i].0 != #[trigger] s[j].0
}

/// `k` is the position of the first `=` in `s`.
pub open spec fn first_eq_at(s: Seq<char>, k: int) -> bool {
    0 <= k < s.len() && s[k] == '=' && forall|j: int| 0 <= j < k ==> #[trigger] s[j] != '='
}

/// `s` holds no `=`.
pub open spec fn no_eq(s: Seq<char>) -> bool {
    forall|j: int| 0 <= j < s.len() ==> #[trigger] s[j] != '='
}

/// The answer to a lookup of `key` that is stored as `val`.
pub open spec fn answer_text(key: Seq<char>, val: Seq<char>) -> Seq<char> {
    key + "="@ + val
}

proof fn lemma_map_absent(s: Seq<(Seq<char>, Seq<char>)>, k: Seq<char>)
    requires
        forall|i: int| 0 <= i < s.len() ==> #[trigger] s[i].0 != k,
    ensures
        !pairs_map(s).contains_key(k),
    decreases s.len(),
{
    if s.len() > 0 {
        let t = s.drop_last();
        assert forall|i: int| 0 <= i < t.len() implies #[trigger] t[i].0 != k by {
            assert(t[i] == s[i]);
        }
        lemma_map_absent(t, k);
    }
}

proof fn lemma_map_at(s: Seq<(Seq<char>, Seq<char>)>, j: int)
    requires
        0 <= j < s.len(),
        keys_unique(s),
    ensures
        pairs_map(s).contains_key(s[j].0),
        pairs_map(s)[s[j].0] == s[j].1,
    decreases s.len(),
{
    let t = s.drop_last();
    if j < s.len() - 1 {
        assert(t[j] == s[j]);
        assert(s.last().0 != s[j].0);
        lemma_map_at(t, j);
    }
}

proof fn lemma_map_update(s: Seq<(Seq<char>, Seq<char>)>, j: int, v: Seq<char>)
    requires
        0 <= j < s.len(),
        keys_unique(s),
    ensures
        pairs_map(s.update(j, (s[j].0, v))) == pairs_map(s).insert(s[j].0, v),
    decreases s.len(),
{
    let k = s[j].0;
    let u = s.update(j, (k, v));
    let t = s.drop_last();
    if j == s.len() - 1 {
        assert(u.drop_last() =~= t);
        assert(pairs_map(u) =~= pairs_map(s).insert(k, v));
    } else {
        assert(u.drop_last() =~= t.update(j, (k, v)));
        assert(t[j] == s[j]);
        lemma_map_update(t, j, v);
        assert(s.last().0 != k);
        assert(pairs_map(u) =~= pairs_map(s).insert(k, v));
    }
}

/// A tiny key-value store that answers textual requests.
pub struct DbEngine {
    store: Vec<(String, String)>,
}

impl View for DbEngine {
    type V = Map<Seq<char>, Seq<char>>;

    closed spec fn view(&self) -> Map<Seq<char>, Seq<char>> {
        pairs_map(self.pairs())
    }
}

impl DbEngine {
    closed spec fn pairs(&self) -> Seq<(Seq<char>, Seq<char>)> {
        self.store@.map_values(|e: (String, String)| (e.0@, e.1@))
    }

    /// Each key is stored once.
    pub closed spec fn wf(&self) -> bool {
        keys_unique(self.pairs())
    }

    /// An empty store.
    pub fn new() -> (r: Self)
        ensures
            r.wf(),
            r@ == Map::<Seq<char>, Seq<char>>::empty(),
    {
        let r = DbEngine { store: Vec::new() };
        assert(r.pairs() =~= Seq::<(Seq<char>, Seq<char>)>::empty());
        r
    }

    fn find(&self, key: &String) -> (r: Option<usize>)
        ensures
            r matches Some(i) ==> i < self.pairs().len() && self.pairs()[i as int].0 == key@,
            r is None ==> forall|i: int| 0 <= i < self.pairs().len() ==> #[trigger] self.pairs()[i].0 != key@,
    {
        let mut i: usize = 0;
        while i < self.store.len()
            invariant
                i <= self.store@.len(),
                self.pairs().len() == self.store@.len(),
                forall|j: int| 0 <= j < i ==> #[trigger] self.pairs()[j].0 != key@,
            decreases self.store@.len() - i,
        {
            if self.store[i].0 == *key {
                return Some(i);
            }
            i = i + 1;
        }
        None
    }

    /// Stores `val` under `key`, replacing any earlier value.
    pub fn insert(&mut self, key: String, val: String)
        requires
            old(self).wf(),
        ensures
            final(self).wf(),
            final(self)@ == old(self)@.insert(key@, val@),
    {
        let ghost before = self.pairs();
        match self.find(&key) {
            Some(i) => {
                self.store.set(i, (key, val));
                proof {
                    assert(self.pairs() =~= before.update(i as int, (before[i as int].0, val@)));
                    lemma_map_update(before, i as int, val@);
                }
            },
            None => {
                self.store.push((key, val));
                proof {
                    assert(self.pairs() =~= before.push((key@, val@)));
                    assert(self.pairs().drop_last() =~= before);
                    assert(keys_unique(self.pairs())) by {
                        assert forall|a: int, b: int|
                            0 <= a < self.pairs().len() && 0 <= b < self.pairs().len() && a != b implies
                            #[trigger] self.pairs()[a].0 != #[trigger] self.pairs()[b].0 by {
                            if a < before.len() && b < before.len() {
                                assert(self.pairs()[a] == before[a]);
                                assert(self.pairs()[b] == before[b]);
                            } else if a < before.len() {
                                assert(self.pairs()[a] == before[a]);
                            } else {
                                assert(self.pairs()[b] == before[b]);
                            }
                        }
                    }
                }
            },
        }
    }

    /// The value stored under `key`, if any.
    pub fn get(&self, key: &String) -> (r: Option<String>)
        requires
            self.wf(),
        ensures
            r is Some <==> self@.contains_key(key@),
            r is Some ==> r->0@ == self@[key@],
    {
        match self.find(key) {
            Some(i) => {
                proof {
                    lemma_map_at(self.pairs(), i as int);
                }
                Some(self.store[i].1.clone())
            },
            None => {
                proof {
                    lemma_map_absent(self.pairs(), key@);
                }
                None
            },
        }
    }

    /// Answers one request. `key=value` stores `value` under `key` (split
    /// at the first `=`) and answers nothing. Any other request is a lookup:
    /// `version` answers `version=1`, whatever is stored; a stored key
    /// answers `key=value`; anything else answers nothing.
    pub fn process_request(&mut self, req: &str) -> (r: Option<String>)
        requires
            old(self).wf(),
        ensures
            final(self).wf(),
            forall|k: int| #[trigger] first_eq_at(req@, k) ==> {
                &&& r is None
                &&& final(self)@ == old(self)@.insert(req@.take(k), req@.skip(k + 1))
            },
            no_eq(req@) ==> final(self)@ == old(self)@,
            no_eq(req@) && req@ == "version"@ ==> r is Some && r->0@ == "version=1"@,
            no_eq(req@) && req@ != "version"@ ==> {
                &&& r is Some <==> old(self)@.contains_key(req@)
                &&& r is Some ==> r->0@ == answer_text(req@, old(self)@[req@])
            },
    {
        let n = req.unicode_len();
        let mut i: usize = 0;
        while i < n
            invariant
                n == req@.len(),
                i <= n,
                self.wf(),
                self@ == old(self)@,
                forall|j: int| 0 <= j < i ==> #[trigger] req@[j] != '=',
            decreases n - i,
        {
            if req.get_char(i) == '=' {
                let key = req.substring_char(0, i);
                let val = req.substring_char(i + 1, n);
                proof {
                    assert(key@ =~= req@.take(i as int));
                    assert(val@ =~= req@.skip(i + 1));
                    assert forall|k: int| #[trigger] first_eq_at(req@, k) implies k == i by {
                        if k < i {
                            assert(req@[k] != '=');
                        } else if k > i {
                            assert(req@[i as int] == '=');
                        }
                    }
                }
                self.insert(String::from_str(key), String::from_str(val));
                return None;
            }
            i = i + 1;
        }
        assert(forall|k: int| !#[trigger] first_eq_at(req@, k));
        let req_s = String::from_str(req);
        if req_s == String::from_str("version") {
            return Some(String::from_str("version=1"));
        }
        match self.get(&req_s) {
            Some(val) => {
                let mut out = req_s;
                out.append("=");
                out.append(val.as_str());
                Some(out)
            },
            None => None,
        }
    }
}

} // verus!
