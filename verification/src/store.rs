//! The record store: an in-memory model of the persisted collection,
//! keyed by record identifier, together with the reconciliation rules
//! that `apply` runs over it.
//!
//! Each record carries a `changed` mark: a local edit not yet uploaded.
//! Reconciliation merges one incoming batch against the table and
//! collects every record still marked changed into the outgoing set,
//! clearing the marks as it goes, so that one batch is sent at most
//! once.

use vstd::pervasive::VecAdditionalExecFns;
use vstd::prelude::*;

use crate::envelope::{bytes_eq, clone_bytes, contains_bytes, raws_of, Envelope, EnvelopeModel};

verus! {

/// The mathematical model of one stored record.
#[verifier::ext_equal]
pub ghost struct RecordModel {
    pub id: Seq<u8>,
    pub payload: Seq<u8>,
    pub changed: bool,
}

/// One record of the collection: identifier, opaque payload, and whether
/// it holds a local change that still has to be uploaded.
pub struct Record {
    pub id: Vec<u8>,
    pub payload: Vec<u8>,
    pub changed: bool,
}

impl View for Record {
    type V = RecordModel;

    open spec fn view(&self) -> RecordModel {
        RecordModel { id: self.id@, payload: self.payload@, changed: self.changed }
    }
}

/// The records table. The store is the sole owner of the persisted
/// records; everything the engine knows of them goes through it.
pub struct TabsStore {
    records: Vec<Record>,
}

impl View for TabsStore {
    type V = Seq<RecordModel>;

    closed spec fn view(&self) -> Seq<RecordModel> {
        self.records@.map_values(|r: Record| r@)
    }
}

/// No two records share an identifier.
pub open spec fn unique_ids(s: Seq<RecordModel>) -> bool {
    forall|i: int, j: int|
        0 <= i < s.len() && 0 <= j < s.len() && i != j ==> s[i].id != s[j].id
}

/// Every identifier is nonempty and fits the codec's header field.
pub open spec fn ids_codable(s: Seq<RecordModel>) -> bool {
    forall|i: int| 0 <= i < s.len() ==> 1 <= #[trigger] s[i].id.len() <= u32::MAX
}

/// Whether some record carries `id`.
pub open spec fn contains_id(s: Seq<RecordModel>, id: Seq<u8>) -> bool {
    exists|i: int| 0 <= i < s.len() && s[i].id == id
}

/// The position of the record carrying `id`; meaningful under
/// `unique_ids` when `contains_id` holds.
pub open spec fn index_of_id(s: Seq<RecordModel>, id: Seq<u8>) -> int {
    choose|i: int| 0 <= i < s.len() && s[i].id == id
}

/// The record carrying `id`.
pub open spec fn record_of(s: Seq<RecordModel>, id: Seq<u8>) -> RecordModel
    recommends
        contains_id(s, id),
{
    s[index_of_id(s, id)]
}

/// An incoming record reconciles silently when a record with its
/// identifier exists and already holds the same payload.
pub open spec fn reconciles(s: Seq<RecordModel>, e: EnvelopeModel) -> bool {
    contains_id(s, e.id) && record_of(s, e.id).payload == e.payload
}

/// One incoming record merged against the table:
/// - absent locally: insert it, not marked changed;
/// - present with the same payload: reconcile silently, clearing any
///   local mark (the states agree, nothing needs uploading);
/// - present, differing, locally changed: the local edit wins and keeps
///   its mark, so it goes out with the next outgoing set;
/// - present, differing, not locally changed: the incoming payload wins.
pub open spec fn apply_one(s: Seq<RecordModel>, e: EnvelopeModel) -> Seq<RecordModel> {
    if !contains_id(s, e.id) {
        s.push(RecordModel { id: e.id, payload: e.payload, changed: false })
    } else {
        let i = index_of_id(s, e.id);
        if s[i].payload == e.payload {
            s.update(i, RecordModel { id: e.id, payload: e.payload, changed: false })
        } else if s[i].changed {
            s
        } else {
            s.update(i, RecordModel { id: e.id, payload: e.payload, changed: false })
        }
    }
}

/// A whole incoming batch merged left to right.
pub open spec fn apply_batch(s: Seq<RecordModel>, pending: Seq<EnvelopeModel>) -> Seq<RecordModel>
    decreases pending.len(),
{
    if pending.len() == 0 {
        s
    } else {
        apply_one(apply_batch(s, pending.drop_last()), pending.last())
    }
}

/// How many records of the batch reconcile silently.
pub open spec fn reconciled_count(s: Seq<RecordModel>, pending: Seq<EnvelopeModel>) -> nat
    decreases pending.len(),
{
    if pending.len() == 0 {
        0
    } else {
        reconciled_count(s, pending.drop_last()) + if reconciles(
            apply_batch(s, pending.drop_last()),
            pending.last(),
        ) {
            1nat
        } else {
            0nat
        }
    }
}

/// The records that must go back to the orchestrator: every record
/// still marked changed, in table order, as envelopes.
pub open spec fn outgoing_of(s: Seq<RecordModel>) -> Seq<EnvelopeModel>
    decreases s.len(),
{
    if s.len() == 0 {
        Seq::empty()
    } else {
        let rest = outgoing_of(s.drop_last());
        if s.last().changed {
            rest.push(EnvelopeModel { id: s.last().id, payload: s.last().payload })
        } else {
            rest
        }
    }
}

/// The same table with every changed mark cleared.
pub open spec fn clear_changed(s: Seq<RecordModel>) -> Seq<RecordModel> {
    s.map_values(|r: RecordModel| RecordModel { id: r.id, payload: r.payload, changed: false })
}

/// No record is marked changed.
pub open spec fn no_changed(s: Seq<RecordModel>) -> bool {
    forall|i: int| 0 <= i < s.len() ==> !(#[trigger] s[i]).changed
}

/// Merging one incoming record never removes a record: every
/// identifier present before is present after, and the table can only
/// grow.
proof fn lemma_apply_one_keeps_records(s: Seq<RecordModel>, e: EnvelopeModel)
    ensures
        forall|id: Seq<u8>| contains_id(s, id) ==> contains_id(apply_one(s, e), id),
        apply_one(s, e).len() >= s.len(),
{
    let t = apply_one(s, e);
    assert forall|id: Seq<u8>| contains_id(s, id) implies contains_id(t, id) by {
        let j = choose|j: int| 0 <= j < s.len() && s[j].id == id;
        assert(t[j].id == id);
    }
}

/// Law: reconciliation never loses user data — every identifier
/// present before an `apply` is still present after it, whatever the
/// incoming batch holds.
pub proof fn lemma_apply_keeps_records(s: Seq<RecordModel>, pending: Seq<EnvelopeModel>)
    ensures
        forall|id: Seq<u8>|
            contains_id(s, id) ==> contains_id(apply_batch(s, pending), id),
        apply_batch(s, pending).len() >= s.len(),
    decreases pending.len(),
{
    if pending.len() > 0 {
        lemma_apply_keeps_records(s, pending.drop_last());
        lemma_apply_one_keeps_records(apply_batch(s, pending.drop_last()), pending.last());
    }
}

/// A table with no changed record produces an empty outgoing set.
pub proof fn lemma_no_changed_outgoing_empty(s: Seq<RecordModel>)
    requires
        no_changed(s),
    ensures
        outgoing_of(s) == Seq::<EnvelopeModel>::empty(),
    decreases s.len(),
{
    if s.len() > 0 {
        lemma_no_changed_outgoing_empty(s.drop_last());
    }
}

/// Law: applying a batch and draining the outgoing set leaves no record
/// marked changed, so a second `apply` without a new incoming batch
/// (the buffer already drained) produces an empty outgoing set.
pub proof fn lemma_second_apply_empty(records: Seq<RecordModel>, pending: Seq<EnvelopeModel>)
    ensures
        outgoing_of(apply_batch(clear_changed(apply_batch(records, pending)), Seq::empty()))
            == Seq::<EnvelopeModel>::empty(),
{
    let after = clear_changed(apply_batch(records, pending));
    assert(apply_batch(after, Seq::empty()) == after);
    assert(no_changed(after));
    lemma_no_changed_outgoing_empty(after);
}

impl TabsStore {
    /// A store with unique, codable identifiers.
    pub open spec fn wf(&self) -> bool {
        unique_ids(self@) && ids_codable(self@)
    }

    /// An empty store.
    pub fn new() -> (s: TabsStore)
        ensures
            s@ == Seq::<RecordModel>::empty(),
            s.wf(),
    {
        let s = TabsStore { records: Vec::new() };
        proof {
            assert(s@ =~= Seq::<RecordModel>::empty());
        }
        s
    }

    /// How many records the store holds.
    pub fn record_count(&self) -> (n: usize)
        ensures
            n == self@.len(),
    {
        self.records.len()
    }

    /// The position of the record carrying `id`, if any.
    fn find(&self, id: &Vec<u8>) -> (r: Option<usize>)
        ensures
            match r {
                Some(i) => 0 <= i < self@.len() && self@[i as int].id == id@,
                None => !contains_id(self@, id@),
            },
    {
        let mut i: usize = 0;
        while i < self.records.len()
            invariant
                i <= self@.len(),
                self@.len() == self.records@.len(),
                forall|j: int| 0 <= j < i ==> self@[j].id != id@,
            decreases self.records.len() - i,
        {
            if bytes_eq(&self.records[i].id, id) {
                return Some(i);
            }
            i = i + 1;
        }
        None
    }

    /// The record carrying `id`, or nothing.
    pub fn get_record(&self, id: &Vec<u8>) -> (r: Option<&Record>)
        requires
            self.wf(),
        ensures
            (r is Some) == contains_id(self@, id@),
            r matches Some(rec) ==> rec@ == record_of(self@, id@),
    {
        match self.find(id) {
            Some(i) => {
                proof {
                    lemma_index_of_id_unique(self@, id@, i as int);
                }
                Some(&self.records[i])
            },
            None => None,
        }
    }

    /// Records a local edit: inserts the record, or replaces its
    /// payload, and marks it changed so the next sync pass uploads it.
    pub fn set_local(&mut self, id: Vec<u8>, payload: Vec<u8>)
        requires
            old(self).wf(),
            1 <= id@.len() <= u32::MAX,
        ensures
            final(self).wf(),
            final(self)@ == set_local_model(old(self)@, id@, payload@),
    {
        let ghost s0 = self@;
        match self.find(&id) {
            Some(i) => {
                proof {
                    lemma_index_of_id_unique(s0, id@, i as int);
                }
                self.records.set(i, Record { id, payload, changed: true });
                proof {
                    assert(self@ =~= s0.update(
                        index_of_id(s0, id@),
                        RecordModel { id: id@, payload: payload@, changed: true },
                    ));
                    lemma_update_keeps_wf(
                        s0,
                        index_of_id(s0, id@),
                        RecordModel { id: id@, payload: payload@, changed: true },
                    );
                }
            },
            None => {
                self.records.push(Record { id, payload, changed: true });
                proof {
                    assert(self@ =~= s0.push(
                        RecordModel { id: id@, payload: payload@, changed: true },
                    ));
                    lemma_push_new_keeps_wf(
                        s0,
                        RecordModel { id: id@, payload: payload@, changed: true },
                    );
                }
            },
        }
    }

    /// Deletes every record.
    pub fn delete_all(&mut self)
        ensures
            final(self)@ == Seq::<RecordModel>::empty(),
            final(self).wf(),
    {
        self.records.clear();
        proof {
            assert(self@ =~= Seq::<RecordModel>::empty());
        }
    }

    /// Merges one incoming record; reports whether it reconciled
    /// silently (already present with the same payload).
    fn reconcile_one(&mut self, env: &Envelope) -> (rec: bool)
        requires
            old(self).wf(),
            1 <= env@.id.len() <= u32::MAX,
        ensures
            final(self).wf(),
            final(self)@ == apply_one(old(self)@, env@),
            rec == reconciles(old(self)@, env@),
    {
        let ghost s0 = self@;
        match self.find(&env.id) {
            Some(i) => {
                proof {
                    lemma_index_of_id_unique(s0, env@.id, i as int);
                }
                if bytes_eq(&self.records[i].payload, &env.payload) {
                    let fresh = Record {
                        id: clone_bytes(&env.id),
                        payload: clone_bytes(&env.payload),
                        changed: false,
                    };
                    self.records.set(i, fresh);
                    proof {
                        assert(self@ =~= s0.update(
                            index_of_id(s0, env@.id),
                            RecordModel { id: env@.id, payload: env@.payload, changed: false },
                        ));
                        lemma_update_keeps_wf(
                            s0,
                            index_of_id(s0, env@.id),
                            RecordModel { id: env@.id, payload: env@.payload, changed: false },
                        );
                    }
                    true
                } else if self.records[i].changed {
                    proof {
                        assert(self@ =~= apply_one(s0, env@));
                    }
                    false
                } else {
                    let fresh = Record {
                        id: clone_bytes(&env.id),
                        payload: clone_bytes(&env.payload),
                        changed: false,
                    };
                    self.records.set(i, fresh);
                    proof {
                        assert(self@ =~= s0.update(
                            index_of_id(s0, env@.id),
                            RecordModel { id: env@.id, payload: env@.payload, changed: false },
                        ));
                        lemma_update_keeps_wf(
                            s0,
                            index_of_id(s0, env@.id),
                            RecordModel { id: env@.id, payload: env@.payload, changed: false },
                        );
                    }
                    false
                }
            },
            None => {
                self.records.push(
                    Record {
                        id: clone_bytes(&env.id),
                        payload: clone_bytes(&env.payload),
                        changed: false,
                    },
                );
                proof {
                    assert(self@ =~= s0.push(
                        RecordModel { id: env@.id, payload: env@.payload, changed: false },
                    ));
                    lemma_push_new_keeps_wf(
                        s0,
                        RecordModel { id: env@.id, payload: env@.payload, changed: false },
                    );
                }
                false
            },
        }
    }

    /// Merges a whole incoming batch, left to right; returns how many
    /// records reconciled silently.
    pub fn apply_incoming(&mut self, pending: &Vec<Envelope>) -> (reconciled: usize)
        requires
            old(self).wf(),
            forall|k: int|
                0 <= k < pending@.len() ==> 1 <= (#[trigger] pending@[k])@.id.len() <= u32::MAX,
        ensures
            final(self).wf(),
            final(self)@ == apply_batch(old(self)@, views_of(pending@)),
            reconciled == reconciled_count(old(self)@, views_of(pending@)),
    {
        let ghost s0 = self@;
        let ghost pviews = views_of(pending@);
        let mut reconciled: usize = 0;
        let mut i: usize = 0;
        proof {
            assert(views_of(pending@.take(0)) =~= Seq::<EnvelopeModel>::empty());
        }
        while i < pending.len()
            invariant
                i <= pending@.len(),
                self.wf(),
                forall|k: int|
                    0 <= k < pending@.len() ==> 1 <= (#[trigger] pending@[k])@.id.len()
                        <= u32::MAX,
                self@ == apply_batch(s0, views_of(pending@.take(i as int))),
                reconciled == reconciled_count(s0, views_of(pending@.take(i as int))),
                reconciled <= i,
            decreases pending.len() - i,
        {
            let rec = self.reconcile_one(&pending[i]);
            if rec {
                reconciled = reconciled + 1;
            }
            proof {
                assert(pending@.take(i + 1 as int).drop_last() =~= pending@.take(i as int));
                assert(views_of(pending@.take(i + 1 as int)).drop_last() =~= views_of(
                    pending@.take(i as int),
                ));
                assert(views_of(pending@.take(i + 1 as int)).last() == pending@[i as int]@);
            }
            i = i + 1;
        }
        proof {
            assert(pending@.take(pending@.len() as int) =~= pending@);
        }
        reconciled
    }

    /// Collects every record marked changed into the outgoing set, in
    /// table order, and clears the marks: each change is uploaded once.
    pub fn drain_outgoing(&mut self) -> (out: Vec<Envelope>)
        requires
            old(self).wf(),
        ensures
            final(self).wf(),
            final(self)@ == clear_changed(old(self)@),
            views_of(out@) == outgoing_of(old(self)@),
    {
        let ghost s0 = self@;
        let mut out: Vec<Envelope> = Vec::new();
        let mut fresh: Vec<Record> = Vec::new();
        let mut i: usize = 0;
        while i < self.records.len()
            invariant
                i <= self.records@.len(),
                s0 == self@,
                s0.len() == self.records@.len(),
                fresh@.len() == i,
                forall|k: int|
                    0 <= k < i ==> (#[trigger] fresh@[k])@ == (RecordModel {
                        id: s0[k].id,
                        payload: s0[k].payload,
                        changed: false,
                    }),
                views_of(out@) == outgoing_of(s0.take(i as int)),
            decreases self.records.len() - i,
        {
            let r = &self.records[i];
            if r.changed {
                out.push(Envelope::new(clone_bytes(&r.id), clone_bytes(&r.payload)));
            }
            fresh.push(Record { id: clone_bytes(&r.id), payload: clone_bytes(&r.payload), changed: false });
            proof {
                assert(s0[i as int] == self.records@[i as int]@);
                assert(s0.take(i + 1 as int).drop_last() =~= s0.take(i as int));
                assert(views_of(out@) =~= outgoing_of(s0.take(i + 1 as int)));
            }
            i = i + 1;
        }
        proof {
            assert(s0.take(s0.len() as int) =~= s0);
        }
        self.records = fresh;
        proof {
            assert(self@ =~= clear_changed(s0));
            lemma_clear_changed_keeps_wf(s0);
        }
        out
    }
    /// Clears the changed mark of every record whose identifier is
    /// among `ids`: the orchestrator confirmed those uploads.
    pub fn clear_marks(&mut self, ids: &Vec<Vec<u8>>)
        requires
            old(self).wf(),
        ensures
            final(self).wf(),
            final(self)@ == clear_changed_for(old(self)@, raws_of(ids@)),
    {
        let ghost s0 = self@;
        let mut fresh: Vec<Record> = Vec::new();
        let mut i: usize = 0;
        while i < self.records.len()
            invariant
                i <= self.records@.len(),
                s0 == self@,
                s0.len() == self.records@.len(),
                fresh@.len() == i,
                forall|k: int|
                    0 <= k < i ==> (#[trigger] fresh@[k])@ == clear_changed_for(
                        s0,
                        raws_of(ids@),
                    )[k],
            decreases self.records.len() - i,
        {
            let r = &self.records[i];
            let keep_mark = r.changed && !contains_bytes(ids, &r.id);
            fresh.push(
                Record { id: clone_bytes(&r.id), payload: clone_bytes(&r.payload), changed: keep_mark },
            );
            proof {
                assert(s0[i as int] == self.records@[i as int]@);
            }
            i = i + 1;
        }
        self.records = fresh;
        proof {
            assert(self@ =~= clear_changed_for(s0, raws_of(ids@)));
            lemma_clear_changed_for_keeps_wf(s0, raws_of(ids@));
        }
    }
}

/// The table with the changed mark cleared on every record whose
/// identifier is among `ids`.
pub open spec fn clear_changed_for(s: Seq<RecordModel>, ids: Seq<Seq<u8>>) -> Seq<RecordModel> {
    s.map_values(
        |r: RecordModel| RecordModel {
            id: r.id,
            payload: r.payload,
            changed: r.changed && !ids.contains(r.id),
        },
    )
}

/// Clearing marks for uploaded identifiers keeps the store well-formed.
proof fn lemma_clear_changed_for_keeps_wf(s: Seq<RecordModel>, ids: Seq<Seq<u8>>)
    requires
        unique_ids(s),
        ids_codable(s),
    ensures
        unique_ids(clear_changed_for(s, ids)),
        ids_codable(clear_changed_for(s, ids)),
{
    let t = clear_changed_for(s, ids);
    assert forall|i: int| 0 <= i < t.len() implies 1 <= (#[trigger] t[i]).id.len() <= u32::MAX by {
        assert(t[i].id == s[i].id);
        assert(1 <= s[i].id.len() <= u32::MAX);
    }
}

/// The batch as envelope models, in order.
pub open spec fn views_of(envs: Seq<Envelope>) -> Seq<EnvelopeModel> {
    envs.map_values(|e: Envelope| e@)
}

/// The table after a local edit of `id`.
pub open spec fn set_local_model(s: Seq<RecordModel>, id: Seq<u8>, payload: Seq<u8>) -> Seq<
    RecordModel,
> {
    if contains_id(s, id) {
        s.update(index_of_id(s, id), RecordModel { id, payload, changed: true })
    } else {
        s.push(RecordModel { id, payload, changed: true })
    }
}

/// Under unique identifiers, any position holding `id` is the position
/// `index_of_id` picks.
pub proof fn lemma_index_of_id_unique(s: Seq<RecordModel>, id: Seq<u8>, i: int)
    requires
        unique_ids(s),
        0 <= i < s.len(),
        s[i].id == id,
    ensures
        contains_id(s, id),
        index_of_id(s, id) == i,
{
    assert(contains_id(s, id));
    let j = index_of_id(s, id);
    assert(0 <= j < s.len() && s[j].id == id);
    if i != j {
        assert(s[i].id != s[j].id);
    }
}

/// Replacing a record with one carrying the same identifier keeps the
/// store well-formed.
proof fn lemma_update_keeps_wf(s: Seq<RecordModel>, i: int, r: RecordModel)
    requires
        unique_ids(s),
        ids_codable(s),
        0 <= i < s.len(),
        r.id == s[i].id,
        1 <= r.id.len() <= u32::MAX,
    ensures
        unique_ids(s.update(i, r)),
        ids_codable(s.update(i, r)),
{
}

/// Appending a record with a fresh identifier keeps the store
/// well-formed.
proof fn lemma_push_new_keeps_wf(s: Seq<RecordModel>, r: RecordModel)
    requires
        unique_ids(s),
        ids_codable(s),
        !contains_id(s, r.id),
        1 <= r.id.len() <= u32::MAX,
    ensures
        unique_ids(s.push(r)),
        ids_codable(s.push(r)),
{
    let t = s.push(r);
    assert forall|i: int, j: int|
        0 <= i < t.len() && 0 <= j < t.len() && i != j implies t[i].id != t[j].id by {
        if i < s.len() && j < s.len() {
        } else if i < s.len() && j == s.len() {
            assert(t[i] == s[i]);
            if s[i].id == r.id {
                assert(contains_id(s, r.id));
            }
        } else if j < s.len() && i == s.len() {
            assert(t[j] == s[j]);
            if s[j].id == r.id {
                assert(contains_id(s, r.id));
            }
        }
    }
}

/// Clearing every changed mark keeps the store well-formed.
proof fn lemma_clear_changed_keeps_wf(s: Seq<RecordModel>)
    requires
        unique_ids(s),
        ids_codable(s),
    ensures
        unique_ids(clear_changed(s)),
        ids_codable(clear_changed(s)),
{
    assert forall|i: int| 0 <= i < clear_changed(s).len() implies 1 <= (#[trigger] clear_changed(
        s,
    )[i]).id.len() <= u32::MAX by {
        assert(clear_changed(s)[i].id == s[i].id);
        assert(1 <= s[i].id.len() <= u32::MAX);
    }
}

} // verus!
