//! The process-wide client registry: a mapping from client identity to
//! display name, with name uniqueness enforced at claim time.
//!
//! The registry is the single source of truth for "who is present".
//! Claiming is one atomic read-decide-write step ([`ClientRegistry::try_claim`]),
//! so no name can be claimed between a check and the matching insert.
//! The caller serialises access (one short-held lock around each call).

use vstd::prelude::*;

verus! {

/// One registration: a client identity and the display name it holds.
#[derive(Debug, PartialEq, Eq)]
pub struct RegEntry {
    pub id: u128,
    pub name: String,
}

impl View for RegEntry {
    type V = (u128, Seq<char>);

    open spec fn view(&self) -> (u128, Seq<char>) {
        (self.id, self.name@)
    }
}

impl DeepView for RegEntry {
    type V = (u128, Seq<char>);

    open spec fn deep_view(&self) -> (u128, Seq<char>) {
        self.view()
    }
}

/// No two positions hold the same identity.
pub open spec fn ids_unique(v: Seq<(u128, Seq<char>)>) -> bool {
    forall|i: int, j: int|
        0 <= i < v.len() && 0 <= j < v.len() && i != j ==> (#[trigger] v[i]).0 != (#[trigger] v[j]).0
}

/// No two positions hold the same display name.
pub open spec fn names_unique(v: Seq<(u128, Seq<char>)>) -> bool {
    forall|i: int, j: int|
        0 <= i < v.len() && 0 <= j < v.len() && i != j ==> (#[trigger] v[i]).1 != (#[trigger] v[j]).1
}

/// Some position registers identity `id`.
pub open spec fn has_id(v: Seq<(u128, Seq<char>)>, id: u128) -> bool {
    exists|i: int| 0 <= i < v.len() && (#[trigger] v[i]).0 == id
}

/// Some position registers identity `id` under name `n`.
pub open spec fn has_entry(v: Seq<(u128, Seq<char>)>, id: u128, n: Seq<char>) -> bool {
    exists|i: int| 0 <= i < v.len() && #[trigger] v[i] == (id, n)
}

/// Some identity other than `id` holds name `n`: the condition under which
/// a claim of `n` by `id` must be refused.
pub open spec fn name_taken_by_other(v: Seq<(u128, Seq<char>)>, id: u128, n: Seq<char>) -> bool {
    exists|i: int| 0 <= i < v.len() && (#[trigger] v[i]).0 != id && v[i].1 == n
}

/// The registry contents with every registration of `id` removed,
/// other registrations kept in order.
pub open spec fn without_id(v: Seq<(u128, Seq<char>)>, id: u128) -> Seq<(u128, Seq<char>)>
    decreases v.len(),
{
    if v.len() == 0 {
        v
    } else {
        let rest = without_id(v.drop_last(), id);
        if v.last().0 == id {
            rest
        } else {
            rest.push(v.last())
        }
    }
}

/// Every element of `without_id(v, id)` is an element of `v` whose
/// identity is not `id`, and everything else of `v` is kept.
pub proof fn lemma_without_id_membership(v: Seq<(u128, Seq<char>)>, id: u128)
    ensures
        forall|k: int|
            0 <= k < without_id(v, id).len() ==> (#[trigger] without_id(v, id)[k]).0 != id
                && v.contains(without_id(v, id)[k]),
        forall|k: int|
            0 <= k < v.len() && (#[trigger] v[k]).0 != id ==> without_id(v, id).contains(v[k]),
        without_id(v, id).len() <= v.len(),
    decreases v.len(),
{
    if v.len() > 0 {
        lemma_without_id_membership(v.drop_last(), id);
        let rest = without_id(v.drop_last(), id);
        assert forall|k: int|
            0 <= k < without_id(v, id).len() implies (#[trigger] without_id(v, id)[k]).0 != id
            && v.contains(without_id(v, id)[k]) by {
            if k < rest.len() {
                assert(rest[k].0 != id && v.drop_last().contains(rest[k]));
                let j = choose|j: int|
                    0 <= j < v.drop_last().len() && v.drop_last()[j] == rest[k];
                assert(v[j] == rest[k]);
            } else {
                assert(without_id(v, id)[k] == v.last());
                assert(v[v.len() - 1] == v.last());
            }
        }
        assert forall|k: int|
            0 <= k < v.len() && (#[trigger] v[k]).0 != id implies without_id(v, id).contains(
            v[k],
        ) by {
            if k < v.len() - 1 {
                assert(v.drop_last()[k] == v[k]);
                assert(rest.contains(v[k]));
                let j = choose|j: int| 0 <= j < rest.len() && rest[j] == v[k];
                if v.last().0 == id {
                } else {
                    assert(rest.push(v.last())[j] == v[k]);
                }
            } else {
                assert(v.last() == v[k]);
                assert(without_id(v, id).last() == v.last());
            }
        }
    }
}

/// Removing an identity keeps both uniqueness invariants.
pub proof fn lemma_without_id_preserves_unique(v: Seq<(u128, Seq<char>)>, id: u128)
    requires
        ids_unique(v),
        names_unique(v),
    ensures
        ids_unique(without_id(v, id)),
        names_unique(without_id(v, id)),
        !has_id(without_id(v, id), id),
    decreases v.len(),
{
    lemma_without_id_membership(v, id);
    if v.len() > 0 {
        assert forall|i: int, j: int|
            0 <= i < v.drop_last().len() && 0 <= j < v.drop_last().len() && i != j implies (
        #[trigger] v.drop_last()[i]).0 != (#[trigger] v.drop_last()[j]).0 && v.drop_last()[i].1
            != v.drop_last()[j].1 by {
            assert(v.drop_last()[i] == v[i] && v.drop_last()[j] == v[j]);
        }
        lemma_without_id_preserves_unique(v.drop_last(), id);
        let rest = without_id(v.drop_last(), id);
        if v.last().0 != id {
            lemma_without_id_membership(v.drop_last(), id);
            let out = rest.push(v.last());
            assert forall|i: int, j: int|
                0 <= i < out.len() && 0 <= j < out.len() && i != j implies (#[trigger] out[i]).0
                != (#[trigger] out[j]).0 && out[i].1 != out[j].1 by {
                if i < rest.len() && j < rest.len() {
                    assert(out[i] == rest[i] && out[j] == rest[j]);
                } else if i < rest.len() {
                    assert(out[j] == v.last() && out[i] == rest[i]);
                    assert(v.drop_last().contains(rest[i]));
                    let k = choose|k: int|
                        0 <= k < v.drop_last().len() && v.drop_last()[k] == rest[i];
                    assert(v[k] == rest[i] && v.last() == v[v.len() - 1]);
                } else {
                    assert(out[i] == v.last() && out[j] == rest[j]);
                    assert(v.drop_last().contains(rest[j]));
                    let k = choose|k: int|
                        0 <= k < v.drop_last().len() && v.drop_last()[k] == rest[j];
                    assert(v[k] == rest[j] && v.last() == v[v.len() - 1]);
                }
            }
        }
    }
}

/// Registry uniqueness law: under the registry invariant, two positions
/// that hold the same display name are the same position, so at most one
/// identity ever holds a given name at any instant.
pub proof fn lemma_registry_name_unique(v: Seq<(u128, Seq<char>)>, i: int, j: int)
    requires
        names_unique(v),
        0 <= i < v.len(),
        0 <= j < v.len(),
        v[i].1 == v[j].1,
    ensures
        i == j,
        v[i].0 == v[j].0,
{
}

/// Outcome of a name claim.
#[derive(Clone, Copy, Debug, PartialEq, Eq, Structural)]
pub enum ClaimOutcome {
    Accepted,
    NameUnavailable,
}

/// The mapping from client identity to display name.
pub struct ClientRegistry {
    entries: Vec<RegEntry>,
}

impl View for ClientRegistry {
    type V = Seq<(u128, Seq<char>)>;

    closed spec fn view(&self) -> Seq<(u128, Seq<char>)> {
        self.entries.deep_view()
    }
}

impl ClientRegistry {
    /// Both registry invariants: identities and names are unique.
    pub open spec fn wf(&self) -> bool {
        ids_unique(self@) && names_unique(self@)
    }

    /// An empty registry.
    pub fn new() -> (r: ClientRegistry)
        ensures
            r@ == Seq::<(u128, Seq<char>)>::empty(),
            r.wf(),
    {
        let r = ClientRegistry { entries: Vec::new() };
        proof {
            assert(r@ =~= Seq::<(u128, Seq<char>)>::empty());
        }
        r
    }

    /// How many clients are currently registered.
    pub fn len(&self) -> (r: usize)
        ensures
            r == self@.len(),
    {
        self.entries.len()
    }

    /// A point-in-time copy of the registry contents, in registration
    /// order.  Callers that read it are looking at advisory data: only
    /// [`Self::try_claim`] decides uniqueness.
    pub fn snapshot(&self) -> (r: Vec<RegEntry>)
        ensures
            r.deep_view() == self@,
    {
        let mut out: Vec<RegEntry> = Vec::new();
        let mut i: usize = 0;
        while i < self.entries.len()
            invariant
                i <= self.entries.len(),
                out.deep_view() =~= self@.subrange(0, i as int),
            decreases self.entries.len() - i,
        {
            let e = &self.entries[i];
            let ghost prev = out.deep_view();
            out.push(RegEntry { id: e.id, name: e.name.clone() });
            proof {
                assert(out.deep_view() =~= prev.push((e.id, e.name@)));
                assert(self@.subrange(0, i as int + 1) =~= self@.subrange(0, i as int).push(
                    self@[i as int],
                ));
            }
            i = i + 1;
        }
        proof {
            assert(out.deep_view() =~= self@);
        }
        out
    }

    /// Remove every registration of `id`; doing nothing when it is absent.
    /// Idempotent: releasing twice equals releasing once.
    pub fn release(&mut self, id: u128)
        ensures
            final(self)@ == without_id(old(self)@, id),
            old(self).wf() ==> final(self).wf(),
    {
        let mut out: Vec<RegEntry> = Vec::new();
        let mut i: usize = 0;
        while i < self.entries.len()
            invariant
                i <= self.entries.len(),
                *self == *old(self),
                out.deep_view() == without_id(self@.subrange(0, i as int), id),
            decreases self.entries.len() - i,
        {
            proof {
                assert(self@.subrange(0, i + 1).drop_last() =~= self@.subrange(0, i as int));
                assert(self@.subrange(0, i + 1).last() == self@[i as int]);
            }
            let e = &self.entries[i];
            if e.id != id {
                out.push(RegEntry { id: e.id, name: e.name.clone() });
            }
            i = i + 1;
        }
        proof {
            assert(self@.subrange(0, self@.len() as int) =~= self@);
            if old(self).wf() {
                lemma_without_id_preserves_unique(old(self)@, id);
            }
        }
        self.entries = out;
    }

    /// Claim `name` for `id`: accepted exactly when no other identity
    /// currently holds `name`.  On acceptance the registration of `id`
    /// is written (replacing any previous name it held); a client
    /// renaming to its own current name is an idempotent success.
    /// On refusal the registry is unchanged.
    pub fn try_claim(&mut self, id: u128, name: String) -> (r: ClaimOutcome)
        requires
            old(self).wf(),
        ensures
            final(self).wf(),
            (r is Accepted) == !name_taken_by_other(old(self)@, id, name@),
            r is Accepted ==> final(self)@ == without_id(old(self)@, id).push((id, name@)),
            r is Accepted ==> has_entry(final(self)@, id, name@),
            r !is Accepted ==> final(self)@ == old(self)@,
    {
        let mut i: usize = 0;
        while i < self.entries.len()
            invariant
                i <= self.entries.len(),
                *self == *old(self),
                old(self).wf(),
                forall|j: int| 0 <= j < i ==> !((#[trigger] self@[j]).0 != id && self@[j].1 == name@),
            decreases self.entries.len() - i,
        {
            let e = &self.entries[i];
            if e.id != id && e.name == name {
                proof {
                    assert(self@[i as int] == (e.id, e.name@));
                    assert(name_taken_by_other(old(self)@, id, name@));
                }
                return ClaimOutcome::NameUnavailable;
            }
            i = i + 1;
        }
        self.release(id);
        proof {
            lemma_without_id_preserves_unique(old(self)@, id);
            lemma_without_id_membership(old(self)@, id);
        }
        let ghost cleared = self@;
        self.entries.push(RegEntry { id, name });
        proof {
            assert(self@ =~= cleared.push((id, name@)));
            let v = self@;
            assert forall|p: int, q: int|
                0 <= p < v.len() && 0 <= q < v.len() && p != q implies (#[trigger] v[p]).0 != (
            #[trigger] v[q]).0 && v[p].1 != v[q].1 by {
                if p < cleared.len() && q < cleared.len() {
                    assert(v[p] == cleared[p] && v[q] == cleared[q]);
                } else if p < cleared.len() {
                    assert(v[q] == (id, name@) && v[p] == cleared[p]);
                    assert(old(self)@.contains(cleared[p]));
                } else {
                    assert(v[p] == (id, name@) && v[q] == cleared[q]);
                    assert(old(self)@.contains(cleared[q]));
                }
            }
            assert(v[v.len() - 1] == (id, name@));
        }
        ClaimOutcome::Accepted
    }
}

} // verus!
