//! The flag table: at most one live flag per identity.

use vstd::prelude::*;
use crate::types::{Flag, FlagType, Identity, Moment};

verus! {

/// The current exposure classification of each flagged identity.
pub struct FlagStore {
    entries: Vec<Flag>,
}

/// Whether some entry of `s` is the flag of `id`.
pub open spec fn has_flag(s: Seq<Flag>, id: Identity) -> bool {
    exists|i: int| 0 <= i < s.len() && #[trigger] s[i].id == id
}

/// The place of the flag of `id` in `s`.
pub open spec fn flag_position(s: Seq<Flag>, id: Identity) -> int {
    choose|i: int| 0 <= i < s.len() && #[trigger] s[i].id == id
}

/// No identity has two entries.
pub open spec fn flags_distinct(s: Seq<Flag>) -> bool {
    forall|i: int, j: int|
        0 <= i < s.len() && 0 <= j < s.len() && #[trigger] s[i].id == #[trigger] s[j].id ==> i
            == j
}

/// The table that the entries `s` spell.
pub open spec fn flag_table(s: Seq<Flag>) -> Map<Identity, Flag> {
    Map::new(|id: Identity| has_flag(s, id), |id: Identity| s[flag_position(s, id)])
}

proof fn lemma_flag_table_update(s: Seq<Flag>, at: int, flag: Flag)
    requires
        flags_distinct(s),
        0 <= at < s.len(),
        s[at].id == flag.id,
    ensures
        flags_distinct(s.update(at, flag)),
        flag_table(s.update(at, flag)) == flag_table(s).insert(flag.id, flag),
{
    let t = s.update(at, flag);
    assert(flags_distinct(t)) by {
        assert forall|i: int, j: int|
            0 <= i < t.len() && 0 <= j < t.len() && #[trigger] t[i].id == #[trigger] t[j].id
            implies i == j by {
            assert(s[i].id == t[i].id);
            assert(s[j].id == t[j].id);
        }
    }
    assert forall|id: Identity| has_flag(t, id) <==> (has_flag(s, id) || id == flag.id) by {
        if has_flag(t, id) {
            let i = flag_position(t, id);
            assert(s[i].id == id);
        }
        if has_flag(s, id) {
            let i = flag_position(s, id);
            assert(t[i].id == id);
        }
        if id == flag.id {
            assert(t[at].id == id);
        }
    }
    assert forall|id: Identity| has_flag(t, id) implies #[trigger] flag_table(t)[id]
        == flag_table(s).insert(flag.id, flag)[id] by {
        let i = flag_position(t, id);
        assert(s[i].id == id);
        if id == flag.id {
            assert(t[at].id == id);
            assert(i == at);
        } else {
            let j = flag_position(s, id);
            assert(t[j].id == id);
            assert(i == j);
        }
    }
    assert(flag_table(t) =~= flag_table(s).insert(flag.id, flag));
}

proof fn lemma_flag_table_push(s: Seq<Flag>, flag: Flag)
    requires
        flags_distinct(s),
        !has_flag(s, flag.id),
    ensures
        flags_distinct(s.push(flag)),
        flag_table(s.push(flag)) == flag_table(s).insert(flag.id, flag),
{
    let t = s.push(flag);
    let n = s.len() as int;
    assert(flags_distinct(t)) by {
        assert forall|i: int, j: int|
            0 <= i < t.len() && 0 <= j < t.len() && #[trigger] t[i].id == #[trigger] t[j].id
            implies i == j by {
            if i < n && j == n {
                assert(s[i].id == flag.id);
            }
            if j < n && i == n {
                assert(s[j].id == flag.id);
            }
            if i < n && j < n {
                assert(s[i].id == s[j].id);
            }
        }
    }
    assert forall|id: Identity| has_flag(t, id) <==> (has_flag(s, id) || id == flag.id) by {
        if has_flag(t, id) {
            let i = flag_position(t, id);
            if i < n {
                assert(s[i].id == id);
            }
        }
        if has_flag(s, id) {
            let i = flag_position(s, id);
            assert(t[i].id == id);
        }
        if id == flag.id {
            assert(t[n].id == id);
        }
    }
    assert forall|id: Identity| has_flag(t, id) implies #[trigger] flag_table(t)[id]
        == flag_table(s).insert(flag.id, flag)[id] by {
        let i = flag_position(t, id);
        if id == flag.id {
            assert(t[n].id == id);
            assert(i == n);
        } else {
            assert(s[i].id == id);
            let j = flag_position(s, id);
            assert(t[j].id == id);
            assert(i == j);
        }
    }
    assert(flag_table(t) =~= flag_table(s).insert(flag.id, flag));
}

impl View for FlagStore {
    type V = Map<Identity, Flag>;

    closed spec fn view(&self) -> Map<Identity, Flag> {
        flag_table(self.entries@)
    }
}

impl FlagStore {
    /// Every identity has at most one flag, filed under its own identity.
    pub closed spec fn wf(&self) -> bool {
        flags_distinct(self.entries@)
    }

    /// A stored flag is filed under the identity that it names.
    pub proof fn lemma_filed_under_own_identity(&self, id: Identity)
        requires
            self.wf(),
            self@.contains_key(id),
        ensures
            self@[id].id == id,
    {
    }

    /// The empty table.
    pub fn new() -> (store: FlagStore)
        ensures
            store.wf(),
            store@ == Map::<Identity, Flag>::empty(),
    {
        let store = FlagStore { entries: Vec::new() };
        assert(store@ =~= Map::<Identity, Flag>::empty());
        store
    }

    fn find(&self, id: &Identity) -> (r: Option<usize>)
        requires
            self.wf(),
        ensures
            match r {
                Some(i) => i < self.entries@.len() && self.entries@[i as int].id == *id
                    && has_flag(self.entries@, *id) && flag_position(self.entries@, *id) == i,
                None => !has_flag(self.entries@, *id),
            },
    {
        let mut i: usize = 0;
        while i < self.entries.len()
            invariant
                self.wf(),
                0 <= i <= self.entries@.len(),
                forall|j: int| 0 <= j < i ==> self.entries@[j].id != *id,
            decreases self.entries@.len() - i,
        {
            if self.entries[i].id.same(id) {
                assert(self.entries@[i as int].id == *id);
                assert(self.entries@[flag_position(self.entries@, *id)].id == *id);
                return Some(i);
            }
            i += 1;
        }
        None
    }

    /// Files `flag_type` for `id` at time `when`, in place of any flag that `id`
    /// had, and returns the new flag.
    pub fn set(&mut self, id: Identity, flag_type: FlagType, when: Moment) -> (flag: Flag)
        requires
            old(self).wf(),
        ensures
            final(self).wf(),
            flag == (Flag { id, flag_type: Some(flag_type), timestamp: when }),
            final(self)@ == old(self)@.insert(id, flag),
    {
        let flag = Flag { id, flag_type: Some(flag_type), timestamp: when };
        match self.find(&id) {
            Some(at) => {
                proof {
                    lemma_flag_table_update(self.entries@, at as int, flag);
                }
                self.entries[at] = flag;
            },
            None => {
                proof {
                    lemma_flag_table_push(self.entries@, flag);
                }
                self.entries.push(flag);
            },
        }
        flag
    }

    /// The live flag of `id`, if it has one.
    pub fn get(&self, id: &Identity) -> (r: Option<Flag>)
        requires
            self.wf(),
        ensures
            r == (if self@.contains_key(*id) {
                Some(self@[*id])
            } else {
                None
            }),
    {
        match self.find(id) {
            Some(at) => Some(self.entries[at]),
            None => None,
        }
    }

    /// Whether `id` is currently flagged positive or suspicious.
    pub fn is_exposed(&self, id: &Identity) -> (r: bool)
        requires
            self.wf(),
        ensures
            r == (self@.contains_key(*id) && self@[*id].exposes()),
    {
        match self.get(id) {
            None => false,
            Some(flag) => match flag.flag_type {
                Some(FlagType::Positive) => true,
                Some(FlagType::Suspicious) => true,
                _ => false,
            },
        }
    }
}

} // verus!
