//! A verified in-memory implementation of the storage ports: invitee
//! records in a vector with pairwise distinct ids, parent/child links
//! in a second vector. It never fails with a store failure, so both
//! ports report it as reliable.

use vstd::prelude::*;
use vstd::pervasive::VecAdditionalExecFns;
use vstd::string::StringExecFns;

use crate::func::{apply_update, InviteeRepo, RelationRepo, RepoErr};
use crate::models::{copy_invitee, str_eq, InviteeDTO, InviteeView, UpdateInviteeParams};

verus! {

/// Mathematical value of a [`Relation`].
pub struct RelationView {
    pub parent: Seq<char>,
    pub child: Seq<char>,
}

/// One parent/child link: the child's RSVP travels with the parent's
/// invitation.
#[derive(Clone, Debug, PartialEq)]
pub struct Relation {
    pub parent: String,
    pub child: String,
}

impl View for Relation {
    type V = RelationView;

    open spec fn view(&self) -> RelationView {
        RelationView { parent: self.parent@, child: self.child@ }
    }
}

/// The records of a vector store, keyed by id; a later record with the
/// same id shadows an earlier one.
pub open spec fn map_of_invitees(s: Seq<InviteeView>) -> Map<Seq<char>, InviteeView>
    decreases s.len(),
{
    if s.len() == 0 {
        Map::empty()
    } else {
        map_of_invitees(s.drop_last()).insert(s.last().id, s.last())
    }
}

/// No two records share an id.
pub open spec fn distinct_ids(s: Seq<InviteeView>) -> bool {
    forall|i: int, j: int| 0 <= i < j < s.len() ==> (#[trigger] s[i]).id != (#[trigger] s[j]).id
}

/// An id is in the store exactly when some record carries it.
proof fn lemma_map_of_contains(s: Seq<InviteeView>, k: Seq<char>)
    ensures
        map_of_invitees(s).contains_key(k) <==> exists|i: int|
            0 <= i < s.len() && (#[trigger] s[i]).id == k,
    decreases s.len(),
{
    if s.len() > 0 {
        let t = s.drop_last();
        lemma_map_of_contains(t, k);
        if map_of_invitees(s).contains_key(k) {
            if s.last().id == k {
                assert(s[s.len() - 1].id == k);
            } else {
                let i = choose|i: int| 0 <= i < t.len() && (#[trigger] t[i]).id == k;
                assert(s[i].id == k);
            }
        }
        if exists|i: int| 0 <= i < s.len() && (#[trigger] s[i]).id == k {
            let i = choose|i: int| 0 <= i < s.len() && (#[trigger] s[i]).id == k;
            if i < s.len() - 1 {
                assert(t[i].id == k);
            }
        }
    }
}

/// The record held under an id carries that id.
proof fn lemma_map_of_ids(s: Seq<InviteeView>, k: Seq<char>)
    requires
        map_of_invitees(s).contains_key(k),
    ensures
        map_of_invitees(s)[k].id == k,
    decreases s.len(),
{
    if s.len() > 0 {
        if s.last().id != k {
            lemma_map_of_ids(s.drop_last(), k);
        }
    }
}

/// With distinct ids, the store holds each record under its id.
proof fn lemma_map_of_index(s: Seq<InviteeView>, i: int)
    requires
        distinct_ids(s),
        0 <= i < s.len(),
    ensures
        map_of_invitees(s).contains_key(s[i].id),
        map_of_invitees(s)[s[i].id] == s[i],
    decreases s.len(),
{
    if i < s.len() - 1 {
        let t = s.drop_last();
        assert forall|a: int, b: int| 0 <= a < b < t.len() implies (#[trigger] t[a]).id != (
        #[trigger] t[b]).id by {
            assert(s[a].id != s[b].id);
        }
        lemma_map_of_index(t, i);
        assert(s.last().id != s[i].id);
    }
}

/// With distinct ids, replacing the record at a position by one with
/// the same id is one insert on the store.
proof fn lemma_map_of_update(s: Seq<InviteeView>, i: int, v: InviteeView)
    requires
        distinct_ids(s),
        0 <= i < s.len(),
        v.id == s[i].id,
    ensures
        map_of_invitees(s.update(i, v)) == map_of_invitees(s).insert(v.id, v),
    decreases s.len(),
{
    let su = s.update(i, v);
    let t = s.drop_last();
    if i == s.len() - 1 {
        assert(su.drop_last() =~= t);
        assert(su.last() == v);
        assert(map_of_invitees(t).insert(s.last().id, s.last()).insert(v.id, v)
            =~= map_of_invitees(t).insert(v.id, v));
    } else {
        assert forall|a: int, b: int| 0 <= a < b < t.len() implies (#[trigger] t[a]).id != (
        #[trigger] t[b]).id by {
            assert(s[a].id != s[b].id);
        }
        assert(su.drop_last() =~= t.update(i, v));
        assert(su.last() == s.last());
        lemma_map_of_update(t, i, v);
        assert(s.last().id != v.id);
        assert(map_of_invitees(t).insert(v.id, v).insert(s.last().id, s.last())
            =~= map_of_invitees(t).insert(s.last().id, s.last()).insert(v.id, v));
    }
}

/// The children recorded under a parent, in store order.
pub open spec fn children_of(rels: Seq<RelationView>, parent: Seq<char>) -> Seq<Seq<char>>
    decreases rels.len(),
{
    if rels.len() == 0 {
        Seq::empty()
    } else {
        let rest = children_of(rels.drop_last(), parent);
        if rels.last().parent == parent {
            rest.push(rels.last().child)
        } else {
            rest
        }
    }
}

/// Find the position of the record carrying `id`.
fn find_index(items: &Vec<InviteeDTO>, id: &str) -> (r: Option<usize>)
    ensures
        r matches Some(i) ==> i < items@.len() && items@[i as int]@.id == id@,
        r is None ==> forall|j: int| 0 <= j < items@.len() ==> (#[trigger] items@[j])@.id != id@,
{
    let n = items.len();
    let mut i: usize = 0;
    while i < n
        invariant
            i <= n,
            n == items@.len(),
            forall|j: int| 0 <= j < i ==> (#[trigger] items@[j])@.id != id@,
        decreases n - i,
    {
        if str_eq(items[i].id.as_str(), id) {
            return Some(i);
        }
        i += 1;
    }
    None
}

/// The in-memory store behind both ports.
pub struct MemRepo {
    invitees: Vec<InviteeDTO>,
    relations: Vec<Relation>,
}

impl MemRepo {
    /// The invitee records as mathematical values, in store order.
    pub closed spec fn inv_seq(&self) -> Seq<InviteeView> {
        self.invitees@.map_values(|d: InviteeDTO| d@)
    }

    /// The relation records as mathematical values, in store order.
    pub closed spec fn rel_seq(&self) -> Seq<RelationView> {
        self.relations@.map_values(|x: Relation| x@)
    }

    #[verifier::type_invariant]
    spec fn wf(&self) -> bool {
        distinct_ids(self.inv_seq())
    }

    /// An empty store.
    pub fn new() -> (r: MemRepo)
        ensures
            r.invitees() == Map::<Seq<char>, InviteeView>::empty(),
            forall|p: Seq<char>| #[trigger] r.dependents_of(p) == Seq::<Seq<char>>::empty(),
    {
        let r = MemRepo { invitees: Vec::new(), relations: Vec::new() };
        proof {
            assert(r.inv_seq() =~= Seq::<InviteeView>::empty());
            assert(r.rel_seq() =~= Seq::<RelationView>::empty());
            assert forall|p: Seq<char>| #[trigger] r.dependents_of(p) == Seq::<Seq<char>>::empty()
                by {
                assert(children_of(r.rel_seq(), p) == Seq::<Seq<char>>::empty());
            }
        }
        r
    }

    /// Put a record in: a record with the same id is replaced, any
    /// other id is added.
    pub fn add_invitee(&mut self, v: InviteeDTO)
        ensures
            final(self).invitees() == old(self).invitees().insert(v.id@, v@),
            forall|p: Seq<char>| #[trigger] final(self).dependents_of(p) == old(
                self,
            ).dependents_of(p),
    {
        proof {
            use_type_invariant(&*self);
        }
        let ghost s = self.inv_seq();
        let r = find_index(&self.invitees, v.id.as_str());
        let mut items: Vec<InviteeDTO> = Vec::new();
        core::mem::swap(&mut items, &mut self.invitees);
        proof {
            assert(Seq::<InviteeView>::empty() =~= self.inv_seq());
        }
        match r {
            Some(i) => {
                proof {
                    lemma_map_of_update(s, i as int, v@);
                    assert forall|a: int, b: int|
                        0 <= a < b < s.update(i as int, v@).len() implies (#[trigger] s.update(
                        i as int,
                        v@,
                    )[a]).id != (#[trigger] s.update(i as int, v@)[b]).id by {
                        assert(s[a].id != s[b].id);
                    }
                }
                items.set(i, v);
                proof {
                    assert(items@.map_values(|d: InviteeDTO| d@) =~= s.update(i as int, v@));
                }
            },
            None => {
                proof {
                    lemma_map_of_contains(s, v@.id);
                    assert(s.push(v@).drop_last() =~= s);
                    assert forall|a: int, b: int|
                        0 <= a < b < s.push(v@).len() implies (#[trigger] s.push(v@)[a]).id != (
                    #[trigger] s.push(v@)[b]).id by {
                        if b < s.len() {
                            assert(s[a].id != s[b].id);
                        } else {
                            assert(s[a].id != v@.id);
                        }
                    }
                }
                items.push(v);
                proof {
                    assert(items@.map_values(|d: InviteeDTO| d@) =~= s.push(v@));
                }
            },
        }
        core::mem::swap(&mut items, &mut self.invitees);
    }

    /// Record that `child`'s RSVP travels with `parent`'s invitation.
    pub fn add_relation(&mut self, parent: String, child: String)
        ensures
            final(self).invitees() == old(self).invitees(),
            forall|p: Seq<char>|
                #[trigger] final(self).dependents_of(p) == if p == parent@ {
                    old(self).dependents_of(p).push(child@)
                } else {
                    old(self).dependents_of(p)
                },
    {
        proof {
            use_type_invariant(&*self);
        }
        let ghost rels = self.rel_seq();
        let mut links: Vec<Relation> = Vec::new();
        core::mem::swap(&mut links, &mut self.relations);
        links.push(Relation { parent, child });
        core::mem::swap(&mut links, &mut self.relations);
        proof {
            assert forall|p: Seq<char>|
                #[trigger] final(self).dependents_of(p) == if p == final(self).rel_seq().last().parent {
                    children_of(rels, p).push(final(self).rel_seq().last().child)
                } else {
                    children_of(rels, p)
                } by {
                assert(self.rel_seq() =~= rels.push(self.rel_seq().last()));
                assert(self.rel_seq().drop_last() =~= rels);
            }
        }
    }
}

impl InviteeRepo for MemRepo {
    closed spec fn invitees(&self) -> Map<Seq<char>, InviteeView> {
        map_of_invitees(self.inv_seq())
    }

    open spec fn invitees_reliable(&self) -> bool {
        true
    }

    fn get_invitee_by_id(&self, id: &str) -> (r: Result<InviteeDTO, RepoErr>) {
        proof {
            use_type_invariant(self);
        }
        let ghost s = self.inv_seq();
        match find_index(&self.invitees, id) {
            Some(i) => {
                proof {
                    lemma_map_of_index(s, i as int);
                }
                Ok(copy_invitee(&self.invitees[i]))
            },
            None => {
                proof {
                    lemma_map_of_contains(s, id@);
                }
                Err(RepoErr::ItemNotFound(id.to_owned()))
            },
        }
    }

    fn get_invitee_by_ids(&self, ids: &Vec<&str>) -> (r: Result<Vec<InviteeDTO>, RepoErr>) {
        let ghost m = self.invitees();
        let ghost idseq = ids@.map_values(|s: &str| s@);
        let mut out: Vec<InviteeDTO> = Vec::new();
        let n = ids.len();
        let mut k: usize = 0;
        while k < n
            invariant
                k <= n,
                n == ids@.len(),
                m == self.invitees(),
                idseq == ids@.map_values(|s: &str| s@),
                forall|j: int|
                    0 <= j < out@.len() ==> {
                        &&& m.contains_key((#[trigger] out@[j])@.id)
                        &&& out@[j]@ == m[out@[j]@.id]
                        &&& idseq.contains(out@[j]@.id)
                    },
                forall|t: int|
                    0 <= t < k && m.contains_key(#[trigger] idseq[t]) ==> exists|j: int|
                        0 <= j < out@.len() && (#[trigger] out@[j])@.id == idseq[t],
            decreases n - k,
        {
            match self.get_invitee_by_id(ids[k]) {
                Ok(v) => {
                    proof {
                        assert(idseq[k as int] == ids@[k as int]@);
                        lemma_map_of_ids(self.inv_seq(), idseq[k as int]);
                        assert(v@.id == idseq[k as int]);
                        assert(idseq.contains(v@.id)) by {
                            assert(idseq[k as int] == v@.id);
                        }
                    }
                    let ghost before = out@;
                    out.push(v);
                    proof {
                        assert forall|t: int|
                            0 <= t < k + 1 && m.contains_key(#[trigger] idseq[t]) implies exists|
                            j: int,
                        |
                            0 <= j < out@.len() && (#[trigger] out@[j])@.id == idseq[t] by {
                            if t < k {
                                let j = choose|j: int|
                                    0 <= j < before.len() && (#[trigger] before[j])@.id
                                        == idseq[t];
                                assert(out@[j]@.id == idseq[t]);
                            } else {
                                assert(out@[before.len() as int]@.id == idseq[k as int]);
                            }
                        }
                    }
                },
                Err(_) => {},
            }
            k += 1;
        }
        proof {
            let outs = out@.map_values(|d: InviteeDTO| d@);
            assert forall|j: int|
                0 <= j < outs.len() implies {
                &&& m.contains_key((#[trigger] outs[j]).id)
                &&& outs[j] == m[outs[j].id]
                &&& idseq.contains(outs[j].id)
            } by {
                assert(outs[j] == out@[j]@);
            }
            assert forall|t: int|
                0 <= t < idseq.len() && m.contains_key(#[trigger] idseq[t]) implies exists|j: int|
                0 <= j < outs.len() && (#[trigger] outs[j]).id == idseq[t] by {
                let j = choose|j: int| 0 <= j < out@.len() && (#[trigger] out@[j])@.id == idseq[t];
                assert(outs[j].id == idseq[t]);
            }
        }
        Ok(out)
    }

    fn update_invitee(&mut self, invitee: &UpdateInviteeParams) -> (r: Result<
        InviteeDTO,
        RepoErr,
    >) {
        proof {
            use_type_invariant(&*self);
        }
        let ghost s = self.inv_seq();
        match find_index(&self.invitees, invitee.id.as_str()) {
            Some(i) => {
                proof {
                    lemma_map_of_index(s, i as int);
                }
                let updated = InviteeDTO {
                    id: self.invitees[i].id.clone(),
                    fname: self.invitees[i].fname.clone(),
                    lname: self.invitees[i].lname.clone(),
                    rsvp: invitee.rsvp,
                    dietary_requirements: invitee.dietary_requirements.clone(),
                };
                let stored = copy_invitee(&updated);
                let mut items: Vec<InviteeDTO> = Vec::new();
                core::mem::swap(&mut items, &mut self.invitees);
                proof {
                    assert(Seq::<InviteeView>::empty() =~= self.inv_seq());
                    lemma_map_of_update(s, i as int, updated@);
                    assert forall|a: int, b: int|
                        0 <= a < b < s.update(i as int, updated@).len() implies (#[trigger] s.update(
                        i as int,
                        updated@,
                    )[a]).id != (#[trigger] s.update(i as int, updated@)[b]).id by {
                        assert(s[a].id != s[b].id);
                    }
                }
                items.set(i, stored);
                proof {
                    assert(items@.map_values(|d: InviteeDTO| d@) =~= s.update(i as int, updated@));
                }
                core::mem::swap(&mut items, &mut self.invitees);
                Ok(updated)
            },
            None => {
                proof {
                    lemma_map_of_contains(s, invitee.id@);
                }
                Err(RepoErr::ItemNotFound(invitee.id.clone()))
            },
        }
    }
}

impl RelationRepo for MemRepo {
    closed spec fn dependents_of(&self, parent: Seq<char>) -> Seq<Seq<char>> {
        children_of(self.rel_seq(), parent)
    }

    open spec fn relations_reliable(&self) -> bool {
        true
    }

    fn get_dependents(&self, id: &str) -> (r: Result<Vec<String>, RepoErr>) {
        let ghost rels = self.rel_seq();
        let mut out: Vec<String> = Vec::new();
        proof {
            assert(rels.take(0) =~= Seq::<RelationView>::empty());
            assert(out@.map_values(|s: String| s@) =~= Seq::<Seq<char>>::empty());
        }
        let n = self.relations.len();
        let mut i: usize = 0;
        while i < n
            invariant
                i <= n,
                n == self.relations@.len(),
                rels == self.rel_seq(),
                out@.map_values(|s: String| s@) == children_of(rels.take(i as int), id@),
            decreases n - i,
        {
            proof {
                assert(rels.take(i + 1).drop_last() =~= rels.take(i as int));
                assert(rels.take(i + 1).last() == rels[i as int]);
            }
            if str_eq(self.relations[i].parent.as_str(), id) {
                let ghost before = out@;
                out.push(self.relations[i].child.clone());
                proof {
                    assert(out@.map_values(|s: String| s@) =~= before.map_values(
                        |s: String| s@,
                    ).push(rels[i as int].child));
                }
            }
            i += 1;
        }
        proof {
            assert(rels.take(n as int) =~= rels);
        }
        Ok(out)
    }
}

} // verus!
