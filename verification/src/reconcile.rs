//! Reconciliation engine for accounts: compares freshly ingested candidate
//! records against persisted records, keyed by the stable external
//! identifier, and classifies each candidate as needs-update, needs-insert,
//! or no-op.  The storage collaborator applies the resulting plan: one write
//! per updated record, one batch insert for all new records.

use vstd::prelude::*;
use crate::models::{NewUser, NewUserView, User, UserView};
use crate::util::{bytes_eq, clone_bytes, clone_opt_bytes, opt_bytes_eq, seq_views};

verus! {

/// Whether some persisted record carries the external identifier `did`.
pub open spec fn has_did(existing: Seq<UserView>, did: Seq<u8>) -> bool {
    exists|i: int| 0 <= i < existing.len() && existing[i].did == did
}

/// The persisted record a candidate with identifier `did` is matched
/// against: the last record carrying `did`, as a lookup table built in
/// iteration order would resolve it.
pub open spec fn match_for(existing: Seq<UserView>, did: Seq<u8>) -> UserView
    recommends
        has_did(existing, did),
    decreases existing.len(),
{
    if existing.len() == 0 {
        arbitrary()
    } else if existing.last().did == did {
        existing.last()
    } else {
        match_for(existing.drop_last(), did)
    }
}

/// A candidate agrees with a persisted record when neither the handle nor
/// the display name differs.
pub open spec fn same_fields(c: NewUserView, u: UserView) -> bool {
    c.handle == u.handle && c.display_name == u.display_name
}

/// The row an update writes: the existing surrogate key and creation time
/// are preserved, the update time is refreshed to the pass's clock, and
/// the mutable fields are taken from the candidate.
pub open spec fn update_row(u: UserView, c: NewUserView, now: int) -> UserView {
    UserView { did: c.did, handle: c.handle, display_name: c.display_name, updated_at: now, ..u }
}

/// The update queue of a reconciliation pass: one row per candidate that
/// matches a persisted record but differs in handle or display name, in
/// candidate order.
pub open spec fn updates_of(cands: Seq<NewUserView>, existing: Seq<UserView>, now: int) -> Seq<
    UserView,
>
    decreases cands.len(),
{
    if cands.len() == 0 {
        Seq::empty()
    } else {
        let prev = updates_of(cands.drop_last(), existing, now);
        let c = cands.last();
        if has_did(existing, c.did) {
            if !same_fields(c, match_for(existing, c.did)) {
                prev.push(update_row(match_for(existing, c.did), c, now))
            } else {
                prev
            }
        } else {
            prev
        }
    }
}

/// The insert batch of a reconciliation pass: the candidates whose external
/// identifier matches no persisted record, in candidate order.
pub open spec fn inserts_of(cands: Seq<NewUserView>, existing: Seq<UserView>) -> Seq<NewUserView>
    decreases cands.len(),
{
    if cands.len() == 0 {
        Seq::empty()
    } else {
        let prev = inserts_of(cands.drop_last(), existing);
        let c = cands.last();
        if has_did(existing, c.did) {
            prev
        } else {
            prev.push(c)
        }
    }
}

/// What a reconciliation pass hands to the storage collaborator.
#[derive(Debug)]
pub struct ReconcilePlan {
    pub to_update: Vec<User>,
    pub to_insert: Vec<NewUser>,
}

/// Finds the persisted record matching `did`, resolving repeated
/// identifiers to the last occurrence.
fn find_match(existing: &Vec<User>, did: &Vec<u8>) -> (r: Option<usize>)
    ensures
        match r {
            Some(i) => i < existing.len() && has_did(seq_views(existing@), did@)
                && existing@[i as int]@ == match_for(seq_views(existing@), did@),
            None => !has_did(seq_views(existing@), did@),
        },
{
    let ghost views = seq_views(existing@);
    let mut i: usize = existing.len();
    proof {
        assert(views.take(existing.len() as int) =~= views);
    }
    while i > 0
        invariant
            i <= existing.len(),
            views == seq_views(existing@),
            views.len() == existing.len(),
            forall|j: int| 0 <= j < views.len() ==> views[j] == existing@[j]@,
            has_did(views, did@) == has_did(views.take(i as int), did@),
            has_did(views, did@) ==> match_for(views, did@) == match_for(
                views.take(i as int),
                did@,
            ),
        decreases i,
    {
        i = i - 1;
        proof {
            assert(views.take(i + 1).drop_last() =~= views.take(i as int));
            assert(views.take(i + 1).last() == views[i as int]);
        }
        if bytes_eq(&existing[i].did, did) {
            proof {
                assert(views[i as int].did == did@);
                assert(has_did(views.take(i + 1), did@));
                assert(match_for(views.take(i + 1), did@) == views[i as int]);
            }
            return Some(i);
        }
        proof {
            assert(forall|j: int|
                0 <= j < i + 1 ==> views.take(i + 1)[j] == views.take(i as int).push(
                    views[i as int],
                )[j]);
            assert(has_did(views.take(i + 1), did@) == has_did(views.take(i as int), did@));
        }
    }
    proof {
        assert(!has_did(views.take(0), did@));
    }
    None
}

/// Classifies every candidate against the persisted set.  The result holds
/// exactly the update rows and the insert batch that `updates_of` and
/// `inserts_of` describe: a candidate matching a persisted record is queued
/// for update when a field differs and dropped otherwise, and is queued for
/// insert exactly when its external identifier is absent.  An update row
/// keeps the record's surrogate key and creation time and carries `now` as
/// its refreshed update time.
pub fn reconcile_accounts(users_list: &Vec<NewUser>, existed_users: &Vec<User>, now: i64) -> (plan:
    ReconcilePlan)
    ensures
        seq_views(plan.to_update@) == updates_of(
            seq_views(users_list@),
            seq_views(existed_users@),
            now as int,
        ),
        seq_views(plan.to_insert@) == inserts_of(seq_views(users_list@), seq_views(existed_users@)),
{
    let ghost cands = seq_views(users_list@);
    let ghost existing = seq_views(existed_users@);
    let mut to_update: Vec<User> = Vec::new();
    let mut to_insert: Vec<NewUser> = Vec::new();
    let mut i: usize = 0;
    while i < users_list.len()
        invariant
            i <= users_list.len(),
            cands == seq_views(users_list@),
            existing == seq_views(existed_users@),
            cands.len() == users_list.len(),
            forall|j: int| 0 <= j < cands.len() ==> cands[j] == users_list@[j]@,
            seq_views(to_update@) == updates_of(cands.take(i as int), existing, now as int),
            seq_views(to_insert@) == inserts_of(cands.take(i as int), existing),
        decreases users_list.len() - i,
    {
        let user = &users_list[i];
        proof {
            assert(cands.take(i + 1).drop_last() =~= cands.take(i as int));
            assert(cands.take(i + 1).last() == cands[i as int]);
        }
        match find_match(existed_users, &user.did) {
            Some(idx) => {
                let existed = &existed_users[idx];
                let fields_equal = bytes_eq(&user.handle, &existed.handle) && opt_bytes_eq(
                    &user.display_name,
                    &existed.display_name,
                );
                if !fields_equal {
                    let row = User {
                        id: existed.id,
                        created_at: existed.created_at,
                        updated_at: now,
                        did: clone_bytes(&user.did),
                        handle: clone_bytes(&user.handle),
                        display_name: clone_opt_bytes(&user.display_name),
                    };
                    proof {
                        assert(row@ =~= update_row(match_for(existing, cands[i as int].did),
                            cands[i as int],
                            now as int,
                        ));
                    }
                    to_update.push(row);
                }
                proof {
                    assert(seq_views(to_update@) =~= updates_of(cands.take(i + 1), existing, now as int));
                    assert(seq_views(to_insert@) =~= inserts_of(cands.take(i + 1), existing));
                }
            },
            None => {
                let cand = NewUser {
                    did: clone_bytes(&user.did),
                    handle: clone_bytes(&user.handle),
                    display_name: clone_opt_bytes(&user.display_name),
                };
                proof {
                    assert(cand@ =~= cands[i as int]);
                }
                to_insert.push(cand);
                proof {
                    assert(seq_views(to_update@) =~= updates_of(cands.take(i + 1), existing, now as int));
                    assert(seq_views(to_insert@) =~= inserts_of(cands.take(i + 1), existing));
                }
            },
        }
        i = i + 1;
    }
    proof {
        assert(cands.take(users_list.len() as int) =~= cands);
    }
    ReconcilePlan { to_update, to_insert }
}

/// Reconciliation never duplicates a record: every candidate queued for
/// insert carries an external identifier that no persisted record has, so a
/// candidate sharing an identifier with a persisted record can only lead to
/// an update or a no-op, never an insert.
pub proof fn lemma_inserts_are_new(cands: Seq<NewUserView>, existing: Seq<UserView>)
    ensures
        forall|j: int|
            0 <= j < inserts_of(cands, existing).len() ==> !has_did(
                existing,
                #[trigger] inserts_of(cands, existing)[j].did,
            ),
    decreases cands.len(),
{
    if cands.len() > 0 {
        lemma_inserts_are_new(cands.drop_last(), existing);
    }
}

/// A persisted set reflects a candidate when it holds a matching record
/// with the candidate's handle and display name.  The apply phase of a
/// reconciliation pass establishes exactly this for every candidate.
pub open spec fn reflects_candidate(existing: Seq<UserView>, c: NewUserView) -> bool {
    has_did(existing, c.did) && same_fields(c, match_for(existing, c.did))
}

/// Reconciliation is idempotent: once the persisted set reflects every
/// candidate — as it does after the plan of a first run is applied and
/// nothing else changes — a second run over the same candidate set plans
/// zero updates and zero inserts, whatever clock reading it runs under.
pub proof fn lemma_reconcile_idempotent(cands: Seq<NewUserView>, existing: Seq<UserView>, now: int)
    requires
        forall|i: int| 0 <= i < cands.len() ==> reflects_candidate(existing, #[trigger] cands[i]),
    ensures
        updates_of(cands, existing, now) =~= Seq::<UserView>::empty(),
        inserts_of(cands, existing) =~= Seq::<NewUserView>::empty(),
    decreases cands.len(),
{
    if cands.len() > 0 {
        assert(reflects_candidate(existing, cands.last()));
        lemma_reconcile_idempotent(cands.drop_last(), existing, now);
    }
}

/// Pairwise-distinct external identifiers among persisted records.
pub open spec fn unique_dids(s: Seq<UserView>) -> bool {
    forall|i: int, j: int| 0 <= i < j < s.len() ==> s[i].did != s[j].did
}

/// Pairwise-distinct external identifiers among candidates.
pub open spec fn unique_cand_dids(s: Seq<NewUserView>) -> bool {
    forall|i: int, j: int| 0 <= i < j < s.len() ==> s[i].did != s[j].did
}

/// Whether some candidate carries the external identifier `did`.
pub open spec fn has_cand(cands: Seq<NewUserView>, did: Seq<u8>) -> bool {
    exists|i: int| 0 <= i < cands.len() && cands[i].did == did
}

/// The candidate a persisted record with identifier `did` is refreshed
/// from: the last candidate carrying `did`.
pub open spec fn cand_for(cands: Seq<NewUserView>, did: Seq<u8>) -> NewUserView
    recommends
        has_cand(cands, did),
    decreases cands.len(),
{
    if cands.len() == 0 {
        arbitrary()
    } else if cands.last().did == did {
        cands.last()
    } else {
        cand_for(cands.drop_last(), did)
    }
}

proof fn lemma_cand_for_unique(cands: Seq<NewUserView>, did: Seq<u8>, i: int)
    requires
        0 <= i < cands.len(),
        cands[i].did == did,
        forall|t: int| 0 <= t < cands.len() && t != i ==> cands[t].did != did,
    ensures
        has_cand(cands, did),
        cand_for(cands, did) == cands[i],
    decreases cands.len(),
{
    if i == cands.len() - 1 {
        assert(cands.last() == cands[i]);
    } else {
        assert(cands.last() == cands[cands.len() - 1]);
        assert(forall|t: int|
            0 <= t < cands.drop_last().len() && t != i ==> cands.drop_last()[t] == cands[t]);
        lemma_cand_for_unique(cands.drop_last(), did, i);
    }
}

proof fn lemma_match_for_unique(s: Seq<UserView>, did: Seq<u8>, j: int)
    requires
        0 <= j < s.len(),
        s[j].did == did,
        forall|t: int| 0 <= t < s.len() && t != j ==> s[t].did != did,
    ensures
        has_did(s, did),
        match_for(s, did) == s[j],
    decreases s.len(),
{
    if j == s.len() - 1 {
        assert(s.last() == s[j]);
    } else {
        assert(s.last() == s[s.len() - 1]);
        assert(forall|t: int| 0 <= t < s.drop_last().len() && t != j ==> s.drop_last()[t] == s[t]);
        lemma_match_for_unique(s.drop_last(), did, j);
    }
}

proof fn lemma_has_did_append(a: Seq<UserView>, b: Seq<UserView>, did: Seq<u8>)
    ensures
        has_did(a + b, did) == (has_did(a, did) || has_did(b, did)),
{
    if has_did(a + b, did) {
        let j = choose|j: int| 0 <= j < (a + b).len() && (a + b)[j].did == did;
        if j < a.len() {
            assert(a[j] == (a + b)[j]);
        } else {
            assert(b[j - a.len()] == (a + b)[j]);
        }
    }
    if has_did(a, did) {
        let j = choose|j: int| 0 <= j < a.len() && a[j].did == did;
        assert((a + b)[j] == a[j]);
    }
    if has_did(b, did) {
        let j = choose|j: int| 0 <= j < b.len() && b[j].did == did;
        assert((a + b)[a.len() + j] == b[j]);
    }
}

proof fn lemma_match_for_append(a: Seq<UserView>, b: Seq<UserView>, did: Seq<u8>)
    ensures
        has_did(a + b, did) == (has_did(a, did) || has_did(b, did)),
        has_did(b, did) ==> match_for(a + b, did) == match_for(b, did),
        !has_did(b, did) && has_did(a, did) ==> match_for(a + b, did) == match_for(a, did),
    decreases b.len(),
{
    lemma_has_did_append(a, b, did);
    if b.len() == 0 {
        assert(a + b =~= a);
    } else {
        assert((a + b).drop_last() =~= a + b.drop_last());
        assert((a + b).last() == b.last());
        lemma_match_for_append(a, b.drop_last(), did);
        if has_did(b, did) && b.last().did != did {
            let j = choose|j: int| 0 <= j < b.len() && b[j].did == did;
            assert(b.drop_last()[j] == b[j]);
        }
    }
}

/// Every candidate queued for insert is one of the candidates, with no
/// persisted match.
proof fn lemma_insert_provenance(cands: Seq<NewUserView>, existing: Seq<UserView>, k: int)
    requires
        0 <= k < inserts_of(cands, existing).len(),
    ensures
        exists|i: int|
            0 <= i < cands.len() && inserts_of(cands, existing)[k] == cands[i] && !has_did(
                existing,
                cands[i].did,
            ),
    decreases cands.len(),
{
    let prev = inserts_of(cands.drop_last(), existing);
    if k < prev.len() {
        lemma_insert_provenance(cands.drop_last(), existing, k);
        let i = choose|i: int|
            0 <= i < cands.drop_last().len() && prev[k] == cands.drop_last()[i] && !has_did(
                existing,
                cands.drop_last()[i].did,
            );
        assert(cands.drop_last()[i] == cands[i]);
        assert(inserts_of(cands, existing)[k] == prev[k]);
    } else {
        assert(cands.last() == cands[cands.len() - 1]);
    }
}

/// The insert batch carries pairwise-distinct external identifiers when
/// the candidates do.
proof fn lemma_insert_dids_unique(cands: Seq<NewUserView>, existing: Seq<UserView>)
    requires
        unique_cand_dids(cands),
    ensures
        forall|k1: int, k2: int|
            0 <= k1 < k2 < inserts_of(cands, existing).len() ==> inserts_of(cands, existing)[k1].did
                != inserts_of(cands, existing)[k2].did,
    decreases cands.len(),
{
    if cands.len() > 0 {
        assert(forall|i: int, j: int|
            0 <= i < j < cands.drop_last().len() ==> cands.drop_last()[i].did
                != cands.drop_last()[j].did);
        lemma_insert_dids_unique(cands.drop_last(), existing);
        let ins = inserts_of(cands, existing);
        let prev = inserts_of(cands.drop_last(), existing);
        let c = cands.last();
        if !has_did(existing, c.did) {
            assert forall|k1: int, k2: int| 0 <= k1 < k2 < ins.len() implies ins[k1].did
                != ins[k2].did by {
                if k2 < prev.len() {
                    assert(ins[k1] == prev[k1] && ins[k2] == prev[k2]);
                } else {
                    assert(ins[k1] == prev[k1] && ins[k2] == c);
                    lemma_insert_provenance(cands.drop_last(), existing, k1);
                    let i = choose|i: int|
                        0 <= i < cands.drop_last().len() && prev[k1] == cands.drop_last()[i]
                            && !has_did(existing, cands.drop_last()[i].did);
                    assert(cands[i].did != cands[cands.len() - 1].did);
                }
            }
        } else {
            assert(forall|k: int| 0 <= k < ins.len() ==> ins[k] == prev[k]);
        }
    }
}

/// A candidate with no persisted match stands in the insert batch.
proof fn lemma_insert_in_plan(cands: Seq<NewUserView>, existing: Seq<UserView>, i: int)
    requires
        0 <= i < cands.len(),
        !has_did(existing, cands[i].did),
    ensures
        exists|k: int|
            0 <= k < inserts_of(cands, existing).len() && inserts_of(cands, existing)[k]
                == cands[i],
    decreases cands.len(),
{
    let ins = inserts_of(cands, existing);
    let prev = inserts_of(cands.drop_last(), existing);
    if i == cands.len() - 1 {
        assert(cands.last() == cands[i]);
        assert(ins[prev.len() as int] == cands[i]);
    } else {
        assert(cands.drop_last()[i] == cands[i]);
        lemma_insert_in_plan(cands.drop_last(), existing, i);
        let k = choose|k: int| 0 <= k < prev.len() && prev[k] == cands.drop_last()[i];
        assert(ins[k] == prev[k]);
    }
}

/// What one persisted record looks like after the apply phase: a record
/// matched by a candidate that differs carries the candidate's handle and
/// display name and the pass's update time; every other record is
/// unchanged.
pub open spec fn refreshed_row(cands: Seq<NewUserView>, u: UserView, now: int) -> UserView {
    if has_cand(cands, u.did) && !same_fields(cand_for(cands, u.did), u) {
        update_row(u, cand_for(cands, u.did), now)
    } else {
        u
    }
}

/// The persisted set after the update phase of a pass over `cands` at
/// clock reading `now`.
pub open spec fn refreshed(existing: Seq<UserView>, cands: Seq<NewUserView>, now: int) -> Seq<
    UserView,
> {
    existing.map_values(|u: UserView| refreshed_row(cands, u, now))
}

/// The rows the storage creates for an insert batch: the batch's fields,
/// under whatever fresh surrogate keys and timestamps storage assigns.
pub open spec fn rows_for_inserts(rows: Seq<UserView>, inserts: Seq<NewUserView>) -> bool {
    rows.len() == inserts.len() && forall|i: int|
        0 <= i < rows.len() ==> (#[trigger] rows[i]).did == inserts[i].did && rows[i].handle
            == inserts[i].handle && rows[i].display_name == inserts[i].display_name
}

/// Running account reconciliation twice with the same candidate set and no
/// intervening changes plans zero updates and zero inserts the second
/// time, whatever clock reading either run uses.  The persisted set after
/// the first run's apply phase is modeled
/// as `refreshed(existing, cands) + rows`: every matched record refreshed
/// with its candidate's fields, and one appended row per planned insert.
/// External identifiers are assumed pairwise distinct on both sides, as
/// the natural-key invariant guarantees for persisted records; two
/// candidates sharing an identifier with different fields would make the
/// first run's own writes conflict.
pub proof fn lemma_second_run_plans_nothing(
    cands: Seq<NewUserView>,
    existing: Seq<UserView>,
    rows: Seq<UserView>,
    now: int,
    later: int,
)
    requires
        unique_cand_dids(cands),
        unique_dids(existing),
        rows_for_inserts(rows, inserts_of(cands, existing)),
    ensures
        updates_of(cands, refreshed(existing, cands, now) + rows, later) =~= Seq::<
            UserView,
        >::empty(),
        inserts_of(cands, refreshed(existing, cands, now) + rows) =~= Seq::<NewUserView>::empty(),
{
    let fresh = refreshed(existing, cands, now);
    let existing2 = fresh + rows;
    assert(fresh.len() == existing.len());
    assert forall|t: int| 0 <= t < existing.len() implies #[trigger] fresh[t].did
        == existing[t].did by {
        assert(fresh[t] == refreshed_row(cands, existing[t], now));
        if has_cand(cands, existing[t].did) {
            let i = choose|i: int| 0 <= i < cands.len() && cands[i].did == existing[t].did;
            assert(forall|s: int|
                0 <= s < cands.len() && s != i ==> cands[s].did != existing[t].did);
            lemma_cand_for_unique(cands, existing[t].did, i);
        }
    }
    assert forall|i: int| 0 <= i < cands.len() implies reflects_candidate(
        existing2,
        #[trigger] cands[i],
    ) by {
        let c = cands[i];
        assert(forall|s: int| 0 <= s < cands.len() && s != i ==> cands[s].did != c.did);
        lemma_match_for_append(fresh, rows, c.did);
        if has_did(existing, c.did) {
            let j = choose|j: int| 0 <= j < existing.len() && existing[j].did == c.did;
            assert(forall|t: int|
                0 <= t < existing.len() && t != j ==> existing[t].did != c.did);
            // The refreshed record at `j` carries the candidate's fields.
            lemma_cand_for_unique(cands, c.did, i);
            assert(fresh[j] == refreshed_row(cands, existing[j], now));
            assert(same_fields(c, fresh[j]));
            assert(fresh[j].did == c.did);
            // No inserted row carries this identifier.
            assert forall|k: int| 0 <= k < rows.len() implies #[trigger] rows[k].did != c.did by {
                lemma_insert_provenance(cands, existing, k);
            }
            assert(!has_did(rows, c.did));
            assert(forall|t: int| 0 <= t < fresh.len() && t != j ==> fresh[t].did != c.did);
            lemma_match_for_unique(fresh, c.did, j);
            assert(match_for(existing2, c.did) == fresh[j]);
            assert(reflects_candidate(existing2, c));
        } else {
            lemma_insert_in_plan(cands, existing, i);
            let ins = inserts_of(cands, existing);
            let k = choose|k: int| 0 <= k < ins.len() && ins[k] == c;
            assert(rows[k].did == c.did && rows[k].handle == c.handle && rows[k].display_name
                == c.display_name);
            lemma_insert_dids_unique(cands, existing);
            assert forall|t: int| 0 <= t < rows.len() && t != k implies #[trigger] rows[t].did
                != c.did by {
                assert(rows[t].did == ins[t].did);
                assert(rows[k].did == ins[k].did);
            }
            lemma_match_for_unique(rows, c.did, k);
            assert(match_for(existing2, c.did) == rows[k]);
            assert(reflects_candidate(existing2, c));
        }
    }
    lemma_reconcile_idempotent(cands, existing2, later);
}

} // verus!
