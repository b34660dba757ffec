//! The two operations of the service — fetch an invitation and update an
//! invitation — written against the storage ports [`InviteeRepo`] and
//! [`RelationRepo`].
//!
//! Each port carries a mathematical model: a map from invitee id to
//! invitee record, and a sequence of dependent ids per parent. The
//! operations' contracts pin their results down in terms of those
//! models, for every outcome a port implementation may produce.

use vstd::prelude::*;

use crate::api::ApiErr;
use crate::models::{params_of, InvitationATO, InvitationView, InviteeDTO, InviteeView,
    UpdateInviteeParams, UpdateParamsView};

verus! {

/// How a storage operation fails: the addressed item has no row, or the
/// store itself failed (connection, query or decode error).
#[derive(Clone, Debug, PartialEq)]
pub enum RepoErr {
    ItemNotFound(String),
    DBFailure(String),
}

/// A record as it stands after applying update parameters: id and names
/// are kept, RSVP and dietary requirements are replaced.
pub open spec fn apply_update(v: InviteeView, p: UpdateParamsView) -> InviteeView {
    InviteeView {
        id: v.id,
        fname: v.fname,
        lname: v.lname,
        rsvp: p.rsvp,
        dietary_requirements: p.dietary_requirements,
    }
}

/// How a batch fetch relates to the store: every returned record is the
/// store's record for one of the requested ids, and every requested id
/// that the store holds is represented in the result.
pub open spec fn batch_matches(
    m: Map<Seq<char>, InviteeView>,
    ids: Seq<Seq<char>>,
    out: Seq<InviteeView>,
) -> bool {
    &&& forall|j: int|
        0 <= j < out.len() ==> {
            &&& m.contains_key((#[trigger] out[j]).id)
            &&& out[j] == m[out[j].id]
            &&& ids.contains(out[j].id)
        }
    &&& forall|k: int|
        0 <= k < ids.len() && m.contains_key(#[trigger] ids[k]) ==> exists|j: int|
            0 <= j < out.len() && (#[trigger] out[j]).id == ids[k]
}

/// Port to the invitee store.
///
/// `invitees()` is the store's content, keyed by invitee id, and
/// `invitees_reliable()` says that the store never fails with
/// [`RepoErr::DBFailure`]. An implementation outside the library keeps
/// the defaults: some unspecified content, and no reliability promise —
/// a database-backed store may fail on any query.
pub trait InviteeRepo {
    open spec fn invitees(&self) -> Map<Seq<char>, InviteeView> {
        arbitrary()
    }

    open spec fn invitees_reliable(&self) -> bool {
        false
    }

    /// Look one invitee up by id.
    fn get_invitee_by_id(&self, id: &str) -> (r: Result<InviteeDTO, RepoErr>)
        ensures
            r matches Ok(v) ==> self.invitees().contains_key(id@) && v@ == self.invitees()[id@],
            r matches Err(RepoErr::ItemNotFound(x)) ==> x@ == id@ && !self.invitees().contains_key(
                id@,
            ),
            self.invitees_reliable() ==> !(r matches Err(RepoErr::DBFailure(_))),
    ;

    /// Fetch the invitees among `ids` that the store holds; ids without
    /// a record are passed over silently.
    fn get_invitee_by_ids(&self, ids: &Vec<&str>) -> (r: Result<Vec<InviteeDTO>, RepoErr>)
        ensures
            r matches Ok(vs) ==> batch_matches(
                self.invitees(),
                ids@.map_values(|s: &str| s@),
                vs@.map_values(|d: InviteeDTO| d@),
            ),
            r matches Err(e) ==> e matches RepoErr::DBFailure(_),
            self.invitees_reliable() ==> r is Ok,
    ;

    /// Write RSVP and dietary requirements to the addressed record and
    /// hand the record back as it stands afterwards.
    fn update_invitee(&mut self, invitee: &UpdateInviteeParams) -> (r: Result<InviteeDTO, RepoErr>)
        ensures
            final(self).invitees_reliable() == old(self).invitees_reliable(),
            r matches Ok(v) ==> {
                &&& old(self).invitees().contains_key(invitee.id@)
                &&& v@ == apply_update(old(self).invitees()[invitee.id@], invitee@)
                &&& final(self).invitees() == old(self).invitees().insert(invitee.id@, v@)
            },
            r matches Err(RepoErr::ItemNotFound(x)) ==> {
                &&& x@ == invitee.id@
                &&& !old(self).invitees().contains_key(invitee.id@)
                &&& final(self).invitees() == old(self).invitees()
            },
            old(self).invitees_reliable() ==> !(r matches Err(RepoErr::DBFailure(_))),
    ;
}

/// Port to the parent/child relation store. `dependents_of(p)` is the
/// sequence of child ids recorded under parent `p`, in store order.
pub trait RelationRepo {
    open spec fn dependents_of(&self, parent: Seq<char>) -> Seq<Seq<char>> {
        arbitrary()
    }

    open spec fn relations_reliable(&self) -> bool {
        false
    }

    /// The ids of the invitees depending on `id`.
    fn get_dependents(&self, id: &str) -> (r: Result<Vec<String>, RepoErr>)
        ensures
            r matches Ok(v) ==> v@.map_values(|s: String| s@) == self.dependents_of(id@),
            r matches Err(e) ==> e matches RepoErr::DBFailure(_),
            self.relations_reliable() ==> r is Ok,
    ;
}

/// What [`fetch_invitation`] promises, over the store models taken at
/// the call: an `Ok` result pairs the store's record for `id` with a
/// batch of its dependents' records; an item-not-found error names `id`
/// and only comes when the store has no record for it; and with
/// reliable stores the operation succeeds exactly when `id` has a
/// record, failing with item-not-found otherwise.
pub open spec fn fetch_post(
    m: Map<Seq<char>, InviteeView>,
    deps: Seq<Seq<char>>,
    reliable: bool,
    id: Seq<char>,
    r: Result<InvitationATO, ApiErr>,
) -> bool {
    &&& r matches Ok(inv) ==> {
        &&& m.contains_key(id)
        &&& inv@.primary_invitee == m[id]
        &&& batch_matches(m, deps, inv@.dependents)
        &&& deps.len() == 0 ==> inv@.dependents.len() == 0
    }
    &&& r matches Err(e) ==> (e matches ApiErr::RepoErr(_))
    &&& r matches Err(ApiErr::RepoErr(RepoErr::ItemNotFound(x))) ==> {
        &&& x@ == id
        &&& !m.contains_key(id)
    }
    &&& reliable ==> {
        &&& (r is Ok <==> m.contains_key(id))
        &&& r matches Err(e) ==> (e matches ApiErr::RepoErr(RepoErr::ItemNotFound(_)))
    }
}

/// Fetch the invitation of the invitee `id`: its dependents' records,
/// where it has dependents, and its own record.
pub fn fetch_invitation<T: InviteeRepo + RelationRepo>(id: &str, db: T) -> (r: Result<
    InvitationATO,
    ApiErr,
>)
    ensures
        fetch_post(
            db.invitees(),
            db.dependents_of(id@),
            db.invitees_reliable() && db.relations_reliable(),
            id@,
            r,
        ),
{
    let dependent_ids = match db.get_dependents(id) {
        Ok(v) => v,
        Err(e) => {
            return Err(ApiErr::RepoErr(e));
        },
    };
    let mut dependents: Vec<InviteeDTO> = Vec::new();
    if dependent_ids.len() > 0 {
        let mut id_refs: Vec<&str> = Vec::new();
        let n = dependent_ids.len();
        let mut i: usize = 0;
        while i < n
            invariant
                i <= n,
                n == dependent_ids@.len(),
                id_refs@.len() == i,
                forall|j: int| 0 <= j < i ==> (#[trigger] id_refs@[j])@ == dependent_ids@[j]@,
            decreases n - i,
        {
            id_refs.push(dependent_ids[i].as_str());
            i += 1;
        }
        proof {
            assert(id_refs@.map_values(|s: &str| s@) =~= dependent_ids@.map_values(
                |s: String| s@,
            ));
        }
        dependents = match db.get_invitee_by_ids(&id_refs) {
            Ok(v) => v,
            Err(e) => {
                return Err(ApiErr::RepoErr(e));
            },
        };
    }
    let primary_invitee = match db.get_invitee_by_id(id) {
        Ok(v) => v,
        Err(e) => {
            return Err(ApiErr::RepoErr(e));
        },
    };
    Ok(InvitationATO { primary_invitee, dependents })
}


/// One update step on the store model: where the target id has a
/// record, that record with the parameters applied; elsewhere the store
/// is left as it is.
pub open spec fn upsert(
    m: Map<Seq<char>, InviteeView>,
    p: UpdateParamsView,
) -> Map<Seq<char>, InviteeView> {
    if m.contains_key(p.id) {
        m.insert(p.id, apply_update(m[p.id], p))
    } else {
        m
    }
}

/// A sequence of update steps applied in order.
pub open spec fn upsert_all(
    m: Map<Seq<char>, InviteeView>,
    ps: Seq<UpdateParamsView>,
) -> Map<Seq<char>, InviteeView>
    decreases ps.len(),
{
    if ps.len() == 0 {
        m
    } else {
        upsert_all(upsert(m, ps[0]), ps.subrange(1, ps.len() as int))
    }
}

/// Applying update steps and then one more is applying the appended
/// sequence.
pub proof fn lemma_upsert_all_snoc(
    m: Map<Seq<char>, InviteeView>,
    ps: Seq<UpdateParamsView>,
    p: UpdateParamsView,
)
    ensures
        upsert_all(m, ps.push(p)) == upsert(upsert_all(m, ps), p),
    decreases ps.len(),
{
    let q = ps.push(p);
    if ps.len() == 0 {
        assert(q[0] == p);
        assert(q.subrange(1, 1) =~= Seq::<UpdateParamsView>::empty());
        assert(upsert_all(m, q) == upsert_all(upsert(m, p), q.subrange(1, 1)));
        assert(upsert_all(upsert(m, p), q.subrange(1, 1)) == upsert(m, p));
        assert(upsert_all(m, ps) == m);
    } else {
        assert(q[0] == ps[0]);
        assert(q.subrange(1, q.len() as int) =~= ps.subrange(1, ps.len() as int).push(p));
        lemma_upsert_all_snoc(upsert(m, ps[0]), ps.subrange(1, ps.len() as int), p);
        assert(upsert_all(m, q) == upsert_all(upsert(m, q[0]), q.subrange(1, q.len() as int)));
        assert(upsert_all(m, ps) == upsert_all(upsert(m, ps[0]), ps.subrange(1, ps.len() as int)));
    }
}

/// The part of the store that updates never touch: the set of ids, and
/// each record's id and names.
pub open spec fn same_core(
    m1: Map<Seq<char>, InviteeView>,
    m2: Map<Seq<char>, InviteeView>,
) -> bool {
    &&& m2.dom() == m1.dom()
    &&& forall|k: Seq<char>|
        m1.contains_key(k) ==> {
            &&& (#[trigger] m2[k]).id == m1[k].id
            &&& m2[k].fname == m1[k].fname
            &&& m2[k].lname == m1[k].lname
        }
}

/// One successful update step keeps the untouched part of the store.
pub proof fn lemma_same_core_step(
    m0: Map<Seq<char>, InviteeView>,
    cur: Map<Seq<char>, InviteeView>,
    p: UpdateParamsView,
    v: InviteeView,
)
    requires
        same_core(m0, cur),
        cur.contains_key(p.id),
        v == apply_update(cur[p.id], p),
    ensures
        same_core(m0, cur.insert(p.id, v)),
{
    assert(cur.insert(p.id, v).dom() =~= m0.dom());
}

/// The first update target without a record: every target before `i`
/// has one, the target at `i` has none.
pub open spec fn missing_at(
    m: Map<Seq<char>, InviteeView>,
    ps: Seq<UpdateParamsView>,
    i: int,
) -> bool {
    &&& 0 <= i < ps.len()
    &&& !m.contains_key(ps[i].id)
    &&& forall|j: int| 0 <= j < i ==> m.contains_key((#[trigger] ps[j]).id)
}

/// At most one position is the first missing one.
pub proof fn lemma_missing_at_unique(
    m: Map<Seq<char>, InviteeView>,
    ps: Seq<UpdateParamsView>,
    i: int,
    j: int,
)
    requires
        missing_at(m, ps, i),
        missing_at(m, ps, j),
    ensures
        i == j,
{
}

/// The update steps an invitation asks for: the primary invitee first,
/// then each dependent in order.
pub open spec fn update_targets(inv: InvitationView) -> Seq<UpdateParamsView> {
    seq![params_of(inv.primary_invitee)] + inv.dependents.map_values(|d: InviteeView| params_of(d))
}

/// What [`update_invitation`] promises over the store model taken at
/// entry: an `Ok` result holds the stored records with the invitation's
/// RSVP and dietary fields applied, names untouched; an item-not-found
/// error names the first update target without a record; and with a
/// reliable store the operation succeeds exactly when every target has
/// a record.
pub open spec fn update_post(
    m: Map<Seq<char>, InviteeView>,
    reliable: bool,
    inv: InvitationView,
    r: Result<InvitationATO, ApiErr>,
) -> bool {
    let ps = update_targets(inv);
    &&& r matches Ok(out) ==> {
        &&& forall|i: int| 0 <= i < ps.len() ==> m.contains_key((#[trigger] ps[i]).id)
        &&& out@.primary_invitee == apply_update(
            m[inv.primary_invitee.id],
            params_of(inv.primary_invitee),
        )
        &&& out@.dependents.len() == inv.dependents.len()
        &&& forall|i: int|
            0 <= i < inv.dependents.len() ==> #[trigger] out@.dependents[i] == apply_update(
                m[inv.dependents[i].id],
                params_of(inv.dependents[i]),
            )
    }
    &&& r matches Err(e) ==> (e matches ApiErr::RepoErr(_))
    &&& r matches Err(ApiErr::RepoErr(RepoErr::ItemNotFound(x))) ==> exists|i: int|
        #[trigger] missing_at(m, ps, i) && x@ == ps[i].id
    &&& reliable ==> {
        &&& !(r matches Err(ApiErr::RepoErr(RepoErr::DBFailure(_))))
        &&& (r is Ok <==> (forall|i: int|
            0 <= i < ps.len() ==> m.contains_key((#[trigger] ps[i]).id)))
    }
}

/// Write the invitation's RSVP and dietary fields back: first to the
/// primary invitee, then to each dependent in sequence, each write on
/// its own. A failing write stops the sequence; earlier writes are not
/// rolled back.
pub fn update_invitation<T: InviteeRepo>(invitation: &InvitationATO, db: &mut T) -> (r: Result<
    InvitationATO,
    ApiErr,
>)
    ensures
        update_post(old(db).invitees(), old(db).invitees_reliable(), invitation@, r),
        final(db).invitees_reliable() == old(db).invitees_reliable(),
        r is Ok ==> final(db).invitees() == upsert_all(
            old(db).invitees(),
            update_targets(invitation@),
        ),
        r matches Err(ApiErr::RepoErr(RepoErr::ItemNotFound(_))) ==> forall|i: int|
            #[trigger] missing_at(old(db).invitees(), update_targets(invitation@), i)
                ==> final(db).invitees() == upsert_all(
                old(db).invitees(),
                update_targets(invitation@).take(i),
            ),
{
    let ghost m0 = old(db).invitees();
    let ghost ps = update_targets(invitation@);
    proof {
        assert(ps[0] == params_of(invitation@.primary_invitee));
        assert(ps.take(0) =~= Seq::<UpdateParamsView>::empty());
    }
    let primary_params = UpdateInviteeParams::from_invitee(&invitation.primary_invitee);
    let primary = match db.update_invitee(&primary_params) {
        Ok(v) => v,
        Err(e) => {
            proof {
                if e matches RepoErr::ItemNotFound(_) {
                    assert(missing_at(m0, ps, 0));
                    assert forall|i: int| missing_at(m0, ps, i) implies final(db).invitees()
                        == upsert_all(m0, ps.take(i)) by {
                        lemma_missing_at_unique(m0, ps, i, 0);
                    }
                }
            }
            return Err(ApiErr::RepoErr(e));
        },
    };
    proof {
        assert(ps.take(1) =~= Seq::<UpdateParamsView>::empty().push(ps[0]));
        lemma_upsert_all_snoc(m0, Seq::empty(), ps[0]);
        lemma_same_core_step(m0, m0, ps[0], primary@);
    }
    let mut dependents_result: Vec<InviteeDTO> = Vec::new();
    let n = invitation.dependents.len();
    let mut k: usize = 0;
    while k < n
        invariant
            0 <= k <= n,
            n == invitation.dependents@.len(),
            m0 == old(db).invitees(),
            ps == update_targets(invitation@),
            ps.len() == 1 + n,
            db.invitees_reliable() == old(db).invitees_reliable(),
            same_core(m0, db.invitees()),
            db.invitees() == upsert_all(m0, ps.take(1 + k as int)),
            m0.contains_key(invitation@.primary_invitee.id),
            primary@ == apply_update(
                m0[invitation@.primary_invitee.id],
                params_of(invitation@.primary_invitee),
            ),
            forall|i: int|
                0 <= i < k ==> m0.contains_key((#[trigger] invitation@.dependents[i]).id),
            dependents_result@.len() == k,
            forall|i: int|
                0 <= i < k ==> (#[trigger] dependents_result@[i])@ == apply_update(
                    m0[invitation@.dependents[i].id],
                    params_of(invitation@.dependents[i]),
                ),
        decreases n - k,
    {
        let ghost cur = db.invitees();
        proof {
            assert(ps[1 + k as int] == params_of(invitation@.dependents[k as int]));
        }
        let p = UpdateInviteeParams::from_invitee(&invitation.dependents[k]);
        match db.update_invitee(&p) {
            Ok(v) => {
                proof {
                    assert(ps.take(1 + (k + 1) as int) =~= ps.take(1 + k as int).push(
                        ps[1 + k as int],
                    ));
                    lemma_upsert_all_snoc(m0, ps.take(1 + k as int), ps[1 + k as int]);
                    lemma_same_core_step(m0, cur, ps[1 + k as int], v@);
                }
                dependents_result.push(v);
            },
            Err(e) => {
                proof {
                    if e matches RepoErr::ItemNotFound(_) {
                        assert(missing_at(m0, ps, 1 + k as int));
                        assert forall|i: int| missing_at(m0, ps, i) implies final(db).invitees()
                            == upsert_all(m0, ps.take(i)) by {
                            lemma_missing_at_unique(m0, ps, i, 1 + k as int);
                        }
                    }
                }
                return Err(ApiErr::RepoErr(e));
            },
        }
        k += 1;
    }
    proof {
        assert(ps.take(1 + n as int) =~= ps);
    }
    let result = InvitationATO { primary_invitee: primary, dependents: dependents_result };
    proof {
        assert(result@.dependents =~= dependents_result@.map_values(|d: InviteeDTO| d@));
    }
    Ok(result)
}

} // verus!
