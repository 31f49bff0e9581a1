//! The contact graph: a directional relation, indexed by the ordered pair of
//! the observer and the observed.

use vstd::prelude::*;
use crate::types::{Contact, Identity, Moment};

verus! {

/// The contacts recorded so far, one per ordered pair.
pub struct ContactStore {
    entries: Vec<Contact>,
}

/// The ordered pair under which a contact is filed.
pub open spec fn contact_key(c: Contact) -> (Identity, Identity) {
    (c.id, c.contact_id)
}

/// Whether some entry of `s` is filed under `key`.
pub open spec fn has_contact(s: Seq<Contact>, key: (Identity, Identity)) -> bool {
    exists|i: int| 0 <= i < s.len() && #[trigger] contact_key(s[i]) == key
}

/// The place in `s` of the contact filed under `key`.
pub open spec fn contact_position(s: Seq<Contact>, key: (Identity, Identity)) -> int {
    choose|i: int| 0 <= i < s.len() && #[trigger] contact_key(s[i]) == key
}

/// No ordered pair has two entries.
pub open spec fn contacts_distinct(s: Seq<Contact>) -> bool {
    forall|i: int, j: int|
        0 <= i < s.len() && 0 <= j < s.len() && #[trigger] contact_key(s[i])
            == #[trigger] contact_key(s[j]) ==> i == j
}

/// The relation that the entries `s` spell.
pub open spec fn contact_table(s: Seq<Contact>) -> Map<(Identity, Identity), Contact> {
    Map::new(
        |key: (Identity, Identity)| has_contact(s, key),
        |key: (Identity, Identity)| s[contact_position(s, key)],
    )
}

proof fn lemma_contact_table_update(s: Seq<Contact>, at: int, contact: Contact)
    requires
        contacts_distinct(s),
        0 <= at < s.len(),
        contact_key(s[at]) == contact_key(contact),
    ensures
        contacts_distinct(s.update(at, contact)),
        contact_table(s.update(at, contact)) == contact_table(s).insert(
            contact_key(contact),
            contact,
        ),
{
    let t = s.update(at, contact);
    let new_key = contact_key(contact);
    assert(contacts_distinct(t)) by {
        assert forall|i: int, j: int|
            0 <= i < t.len() && 0 <= j < t.len() && #[trigger] contact_key(t[i])
                == #[trigger] contact_key(t[j]) implies i == j by {
            assert(contact_key(s[i]) == contact_key(t[i]));
            assert(contact_key(s[j]) == contact_key(t[j]));
        }
    }
    assert forall|key: (Identity, Identity)|
        has_contact(t, key) <==> (has_contact(s, key) || key == new_key) by {
        if has_contact(t, key) {
            let i = contact_position(t, key);
            assert(contact_key(s[i]) == key);
        }
        if has_contact(s, key) {
            let i = contact_position(s, key);
            assert(contact_key(t[i]) == key);
        }
        if key == new_key {
            assert(contact_key(t[at]) == key);
        }
    }
    assert forall|key: (Identity, Identity)| has_contact(t, key) implies #[trigger] contact_table(
        t,
    )[key] == contact_table(s).insert(new_key, contact)[key] by {
        let i = contact_position(t, key);
        assert(contact_key(s[i]) == key);
        if key == new_key {
            assert(contact_key(t[at]) == key);
            assert(i == at);
        } else {
            let j = contact_position(s, key);
            assert(contact_key(t[j]) == key);
            assert(i == j);
        }
    }
    assert(contact_table(t) =~= contact_table(s).insert(new_key, contact));
}

proof fn lemma_contact_table_push(s: Seq<Contact>, contact: Contact)
    requires
        contacts_distinct(s),
        !has_contact(s, contact_key(contact)),
    ensures
        contacts_distinct(s.push(contact)),
        contact_table(s.push(contact)) == contact_table(s).insert(contact_key(contact), contact),
{
    let t = s.push(contact);
    let n = s.len() as int;
    let new_key = contact_key(contact);
    assert(contacts_distinct(t)) by {
        assert forall|i: int, j: int|
            0 <= i < t.len() && 0 <= j < t.len() && #[trigger] contact_key(t[i])
                == #[trigger] contact_key(t[j]) implies i == j by {
            if i < n && j == n {
                assert(contact_key(s[i]) == new_key);
            }
            if j < n && i == n {
                assert(contact_key(s[j]) == new_key);
            }
            if i < n && j < n {
                assert(contact_key(s[i]) == contact_key(s[j]));
            }
        }
    }
    assert forall|key: (Identity, Identity)|
        has_contact(t, key) <==> (has_contact(s, key) || key == new_key) by {
        if has_contact(t, key) {
            let i = contact_position(t, key);
            if i < n {
                assert(contact_key(s[i]) == key);
            }
        }
        if has_contact(s, key) {
            let i = contact_position(s, key);
            assert(contact_key(t[i]) == key);
        }
        if key == new_key {
            assert(contact_key(t[n]) == key);
        }
    }
    assert forall|key: (Identity, Identity)| has_contact(t, key) implies #[trigger] contact_table(
        t,
    )[key] == contact_table(s).insert(new_key, contact)[key] by {
        let i = contact_position(t, key);
        if key == new_key {
            assert(contact_key(t[n]) == key);
            assert(i == n);
        } else {
            assert(contact_key(s[i]) == key);
            let j = contact_position(s, key);
            assert(contact_key(t[j]) == key);
            assert(i == j);
        }
    }
    assert(contact_table(t) =~= contact_table(s).insert(new_key, contact));
}

impl View for ContactStore {
    type V = Map<(Identity, Identity), Contact>;

    closed spec fn view(&self) -> Map<(Identity, Identity), Contact> {
        contact_table(self.entries@)
    }
}

impl ContactStore {
    /// Every ordered pair has at most one contact, filed under its own pair.
    pub closed spec fn wf(&self) -> bool {
        contacts_distinct(self.entries@)
    }

    /// A stored contact is filed under the pair that it names.
    pub proof fn lemma_filed_under_own_pair(&self, a: Identity, b: Identity)
        requires
            self.wf(),
            self@.contains_key((a, b)),
        ensures
            self@[(a, b)].id == a,
            self@[(a, b)].contact_id == b,
    {
        let i = contact_position(self.entries@, (a, b));
        assert(contact_key(self.entries@[i]) == (a, b));
    }

    /// The empty relation.
    pub fn new() -> (store: ContactStore)
        ensures
            store.wf(),
            store@ == Map::<(Identity, Identity), Contact>::empty(),
    {
        let store = ContactStore { entries: Vec::new() };
        assert(store@ =~= Map::<(Identity, Identity), Contact>::empty());
        store
    }

    fn find(&self, a: &Identity, b: &Identity) -> (r: Option<usize>)
        requires
            self.wf(),
        ensures
            match r {
                Some(i) => i < self.entries@.len() && contact_key(self.entries@[i as int]) == (
                    *a,
                    *b,
                ) && has_contact(self.entries@, (*a, *b)) && contact_position(
                    self.entries@,
                    (*a, *b),
                ) == i,
                None => !has_contact(self.entries@, (*a, *b)),
            },
    {
        let mut i: usize = 0;
        while i < self.entries.len()
            invariant
                self.wf(),
                0 <= i <= self.entries@.len(),
                forall|j: int| 0 <= j < i ==> contact_key(self.entries@[j]) != (*a, *b),
            decreases self.entries@.len() - i,
        {
            if self.entries[i].id.same(a) && self.entries[i].contact_id.same(b) {
                assert(contact_key(self.entries@[i as int]) == (*a, *b));
                assert(contact_key(self.entries@[contact_position(self.entries@, (*a, *b))]) == (
                    *a,
                    *b,
                ));
                return Some(i);
            }
            i += 1;
        }
        None
    }

    /// Records that `a` observed `b` at time `when`, in place of any earlier
    /// record of that ordered pair, and returns the new contact. The pair
    /// `(b, a)` is another key and is left as it was.
    pub fn insert(&mut self, a: Identity, b: Identity, when: Moment) -> (contact: Contact)
        requires
            old(self).wf(),
        ensures
            final(self).wf(),
            contact == (Contact { id: a, contact_id: b, timestamp: when }),
            final(self)@ == old(self)@.insert((a, b), contact),
    {
        let contact = Contact { id: a, contact_id: b, timestamp: when };
        match self.find(&a, &b) {
            Some(at) => {
                proof {
                    lemma_contact_table_update(self.entries@, at as int, contact);
                }
                self.entries[at] = contact;
            },
            None => {
                proof {
                    lemma_contact_table_push(self.entries@, contact);
                }
                self.entries.push(contact);
            },
        }
        contact
    }

    /// The contact recorded for the ordered pair `(a, b)`, if there is one.
    pub fn get(&self, a: &Identity, b: &Identity) -> (r: Option<Contact>)
        requires
            self.wf(),
        ensures
            r == (if self@.contains_key((*a, *b)) {
                Some(self@[(*a, *b)])
            } else {
                None
            }),
    {
        match self.find(a, b) {
            Some(at) => Some(self.entries[at]),
            None => None,
        }
    }

    /// The fan-out of `a`: the contacts that `a` recorded, one for each identity
    /// that it observed.
    pub fn contacts_of(&self, a: &Identity) -> (r: Vec<Contact>)
        requires
            self.wf(),
        ensures
            forall|i: int| 0 <= i < r@.len() ==> (#[trigger] r@[i]).id == *a && self@.contains_key(
                (*a, r@[i].contact_id),
            ) && self@[(*a, r@[i].contact_id)] == r@[i],
            forall|b: Identity|
                self@.contains_key((*a, b)) ==> exists|i: int|
                    0 <= i < r@.len() && #[trigger] r@[i] == self@[(*a, b)],
            forall|i: int, j: int|
                0 <= i < r@.len() && 0 <= j < r@.len() && (#[trigger] r@[i]).contact_id
                    == (#[trigger] r@[j]).contact_id ==> i == j,
    {
        let mut out: Vec<Contact> = Vec::new();
        let ghost mut origin: Seq<int> = Seq::empty();
        let mut i: usize = 0;
        while i < self.entries.len()
            invariant
                self.wf(),
                0 <= i <= self.entries@.len(),
                origin.len() == out@.len(),
                forall|k: int|
                    0 <= k < out@.len() ==> 0 <= #[trigger] origin[k] < i && out@[k]
                        == self.entries@[origin[k]] && out@[k].id == *a,
                forall|k: int, l: int| 0 <= k < l < out@.len() ==> origin[k] < origin[l],
                forall|j: int|
                    0 <= j < i && (#[trigger] self.entries@[j]).id == *a ==> exists|k: int|
                        0 <= k < out@.len() && #[trigger] origin[k] == j,
            decreases self.entries@.len() - i,
        {
            if self.entries[i].id.same(a) {
                let ghost before = origin;
                out.push(self.entries[i]);
                proof {
                    origin = origin.push(i as int);
                    assert forall|k: int| 0 <= k < out@.len() implies 0 <= #[trigger] origin[k] < i
                        + 1 && out@[k] == self.entries@[origin[k]] && out@[k].id == *a by {
                        if k < before.len() {
                            assert(origin[k] == before[k]);
                        }
                    }
                    assert forall|k: int, l: int| 0 <= k < l < out@.len() implies origin[k]
                        < origin[l] by {
                        assert(0 <= before[k] < i);
                        if l < before.len() {
                            assert(origin[l] == before[l]);
                        }
                    }
                    assert forall|j: int|
                        0 <= j < i + 1 && (#[trigger] self.entries@[j]).id == *a implies exists|
                        k: int,
                    |
                        0 <= k < out@.len() && #[trigger] origin[k] == j by {
                        if j < i {
                            let k = choose|k: int| 0 <= k < before.len() && #[trigger] before[k] == j;
                            assert(origin[k] == j);
                        } else {
                            assert(origin[out@.len() - 1] == j);
                        }
                    }
                }
            }
            i += 1;
        }
        proof {
            let s = self.entries@;
            assert forall|k: int| 0 <= k < out@.len() implies (#[trigger] out@[k]).id == *a
                && self@.contains_key((*a, out@[k].contact_id)) && self@[(*a, out@[k].contact_id)]
                == out@[k] by {
                let key = (*a, out@[k].contact_id);
                assert(contact_key(s[origin[k]]) == key);
                let p = contact_position(s, key);
                assert(contact_key(s[p]) == key);
            }
            assert forall|b: Identity| self@.contains_key((*a, b)) implies exists|k: int|
                0 <= k < out@.len() && #[trigger] out@[k] == self@[(*a, b)] by {
                let p = contact_position(s, (*a, b));
                assert(contact_key(s[p]) == (*a, b));
                assert(s[p].id == *a);
                let k = choose|k: int| 0 <= k < out@.len() && #[trigger] origin[k] == p;
                assert(out@[k] == s[p]);
            }
            assert forall|k: int, l: int|
                0 <= k < out@.len() && 0 <= l < out@.len() && (#[trigger] out@[k]).contact_id
                    == (#[trigger] out@[l]).contact_id implies k == l by {
                assert(contact_key(s[origin[k]]) == contact_key(s[origin[l]]));
                assert(origin[k] == origin[l]);
                if k < l {
                    assert(origin[k] < origin[l]);
                }
                if l < k {
                    assert(origin[l] < origin[k]);
                }
            }
        }
        out
    }
}

} // verus!
