use vstd::prelude::*;
use vstd::string::StringExecFns;

verus! {

/// Whether some entry of `s` belongs to session `id`.
pub open spec fn has_id(s: Seq<(u32, Seq<char>)>, id: u32) -> bool {
    exists|i: int| 0 <= i < s.len() && #[trigger] s[i].0 == id
}

/// No two entries of `s` belong to the same session.
pub open spec fn ids_unique(s: Seq<(u32, Seq<char>)>) -> bool {
    forall|i: int, j: int|
        0 <= i < s.len() && 0 <= j < s.len() && i != j ==> #[trigger] s[i].0 != #[trigger] s[j].0
}

/// `after` is `before` without the entry of session `id`, all else in
/// order, or `before` itself when `id` has no entry.
pub open spec fn removed(before: Seq<(u32, Seq<char>)>, after: Seq<(u32, Seq<char>)>, id: u32) -> bool {
    &&& has_id(before, id) ==> exists|k: int|
        0 <= k < before.len() && before[k].0 == id && after == before.remove(k)
    &&& !has_id(before, id) ==> after == before
}

/// The display names of `s`, in the order the sessions joined.
pub open spec fn names_of(s: Seq<(u32, Seq<char>)>) -> Seq<Seq<char>> {
    s.map_values(|e: (u32, Seq<char>)| e.1)
}

/// `names` separated by `", "`.
pub open spec fn comma_list(names: Seq<Seq<char>>) -> Seq<char>
    decreases names.len(),
{
    if names.len() == 0 {
        Seq::empty()
    } else if names.len() == 1 {
        names[0]
    } else {
        comma_list(names.drop_last()) + ", "@ + names.last()
    }
}

/// The line that tells a newcomer who is already present.
pub open spec fn participants_text(names: Seq<Seq<char>>) -> Seq<char> {
    "* List of participants: ["@ + comma_list(names) + "]\n"@
}

/// The sessions that completed negotiation and are still connected, each
/// with its display name, in the order they joined.
pub struct PresenceRegistry {
    entries: Vec<(u32, String)>,
}

impl View for PresenceRegistry {
    type V = Seq<(u32, Seq<char>)>;

    closed spec fn view(&self) -> Seq<(u32, Seq<char>)> {
        self.entries@.map_values(|e: (u32, String)| (e.0, e.1@))
    }
}

impl PresenceRegistry {
    /// At most one entry per session.
    pub open spec fn wf(&self) -> bool {
        ids_unique(self@)
    }

    /// An empty registry.
    pub fn new() -> (r: Self)
        ensures
            r.wf(),
            r@ == Seq::<(u32, Seq<char>)>::empty(),
    {
        let r = PresenceRegistry { entries: Vec::new() };
        assert(r@ =~= Seq::<(u32, Seq<char>)>::empty());
        r
    }

    /// Whether session `id` has an entry.
    pub fn contains(&self, id: u32) -> (r: bool)
        ensures
            r == has_id(self@, id),
    {
        let mut i: usize = 0;
        while i < self.entries.len()
            invariant
                i <= self.entries@.len(),
                self@.len() == self.entries@.len(),
                forall|j: int| 0 <= j < i ==> #[trigger] self@[j].0 != id,
            decreases self.entries@.len() - i,
        {
            if self.entries[i].0 == id {
                assert(self@[i as int].0 == id);
                return true;
            }
            i = i + 1;
        }
        false
    }

    /// Adds session `id` under `name`; refused, with no change, when the
    /// session already has an entry.
    pub fn join(&mut self, id: u32, name: String) -> (r: bool)
        requires
            old(self).wf(),
        ensures
            final(self).wf(),
            r == !has_id(old(self)@, id),
            r ==> final(self)@ == old(self)@.push((id, name@)),
            !r ==> final(self)@ == old(self)@,
    {
        if self.contains(id) {
            return false;
        }
        let ghost before = self@;
        self.entries.push((id, name));
        assert(self@ =~= before.push((id, name@)));
        assert(ids_unique(self@)) by {
            assert forall|i: int, j: int|
                0 <= i < self@.len() && 0 <= j < self@.len() && i != j implies
                #[trigger] self@[i].0 != #[trigger] self@[j].0 by {
                if i == before.len() {
                    assert(before[j].0 == self@[j].0);
                } else if j == before.len() {
                    assert(before[i].0 == self@[i].0);
                }
            }
        }
        true
    }

    /// Removes the entry of session `id`, if there is one.
    pub fn leave(&mut self, id: u32)
        requires
            old(self).wf(),
        ensures
            final(self).wf(),
            !has_id(final(self)@, id),
            removed(old(self)@, final(self)@, id),
    {
        let ghost before = self@;
        let mut i: usize = 0;
        while i < self.entries.len()
            invariant
                self@ == before,
                before == old(self)@,
                ids_unique(before),
                i <= self.entries@.len(),
                self@.len() == self.entries@.len(),
                forall|j: int| 0 <= j < i ==> #[trigger] self@[j].0 != id,
            decreases self.entries@.len() - i,
        {
            if self.entries[i].0 == id {
                let ghost k = i as int;
                assert(before[k].0 == id);
                self.entries.remove(i);
                assert(self@ =~= before.remove(k));
                proof {
                    before.remove_ensures(k);
                }
                assert forall|j: int| 0 <= j < self@.len() implies #[trigger] self@[j].0 != id by {
                    if j < k {
                        assert(self@[j] == before[j]);
                    } else {
                        assert(self@[j] == before[j + 1]);
                    }
                }
                assert(ids_unique(self@)) by {
                    assert forall|a: int, b: int|
                        0 <= a < self@.len() && 0 <= b < self@.len() && a != b implies
                        #[trigger] self@[a].0 != #[trigger] self@[b].0 by {
                        let a0 = if a < k { a } else { a + 1 };
                        let b0 = if b < k { b } else { b + 1 };
                        assert(self@[a] == before[a0]);
                        assert(self@[b] == before[b0]);
                    }
                }
                assert(has_id(before, id));
                assert(0 <= k < before.len() && before[k].0 == id && self@ == before.remove(k));
                return;
            }
            i = i + 1;
        }
    }

    /// The display names currently present, in the order they joined.
    pub fn snapshot(&self) -> (r: Vec<String>)
        ensures
            r@.map_values(|s: String| s@) == names_of(self@),
    {
        let mut out: Vec<String> = Vec::new();
        let mut i: usize = 0;
        while i < self.entries.len()
            invariant
                i <= self.entries@.len(),
                self@.len() == self.entries@.len(),
                out@.len() == i,
                forall|j: int| 0 <= j < i ==> #[trigger] out@[j]@ == names_of(self@)[j],
            decreases self.entries@.len() - i,
        {
            let name = self.entries[i].1.clone();
            assert(name@ == names_of(self@)[i as int]);
            out.push(name);
            i = i + 1;
        }
        assert(out@.map_values(|s: String| s@) =~= names_of(self@));
        out
    }
}

/// The line that tells a newcomer that `names` are present.
pub fn participants_line(names: &Vec<String>) -> (r: String)
    ensures
        r@ == participants_text(names@.map_values(|s: String| s@)),
{
    let ghost all = names@.map_values(|s: String| s@);
    let mut out = String::from_str("* List of participants: [");
    let mut i: usize = 0;
    while i < names.len()
        invariant
            i <= names@.len(),
            all == names@.map_values(|s: String| s@),
            out@ == "* List of participants: ["@ + comma_list(all.take(i as int)),
        decreases names@.len() - i,
    {
        proof {
            assert(all.take(i + 1).drop_last() =~= all.take(i as int));
            assert(all.take(i + 1).last() == names@[i as int]@);
        }
        if i > 0 {
            out.append(", ");
        }
        out.append(names[i].as_str());
        proof {
            if i == 0 {
                assert(comma_list(all.take(1)) == all.take(1)[0]);
            }
            assert(out@ =~= "* List of participants: ["@ + comma_list(all.take(i + 1)));
        }
        i = i + 1;
    }
    out.append("]\n");
    assert(all.take(i as int) =~= all);
    out
}

} // verus!
