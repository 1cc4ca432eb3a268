//! Message store: append-only, deduplicated message records.
//!
//! A record is keyed by `(message_id, community_id)`; message ids may collide
//! across communities but not within one.  Insertion is insert-or-ignore, so
//! capturing overlapping windows twice is a silent no-op.

use vstd::prelude::*;

use crate::ArchiveError;

verus! {

/// One archived message.  Immutable once written.  An absent author name
/// means "author anonymized at render time"; this is independent of the
/// author's consent state.
pub struct MessageRecord {
    pub message_id: u64,
    pub community_id: u64,
    pub author_name: Option<String>,
    pub author_automated: bool,
    pub content: String,
    pub timestamp_ms: i64,
}

/// The mathematical content of one record: the same fields with strings
/// taken as character sequences.
#[verifier::ext_equal]
pub struct RecordModel {
    pub message_id: u64,
    pub community_id: u64,
    pub author_name: Option<Seq<char>>,
    pub author_automated: bool,
    pub content: Seq<char>,
    pub timestamp_ms: i64,
}

pub open spec fn record_model(r: MessageRecord) -> RecordModel {
    RecordModel {
        message_id: r.message_id,
        community_id: r.community_id,
        author_name: r.author_name.deep_view(),
        author_automated: r.author_automated,
        content: r.content@,
        timestamp_ms: r.timestamp_ms,
    }
}

/// Whether some row carries the key `(mid, cid)`.
pub open spec fn has_record(rows: Seq<RecordModel>, mid: u64, cid: u64) -> bool {
    exists|i: int|
        0 <= i < rows.len() && rows[i].message_id == mid && rows[i].community_id == cid
}

/// First row carrying the key `(mid, cid)`, if any.
pub open spec fn find_record(rows: Seq<RecordModel>, mid: u64, cid: u64) -> Option<RecordModel>
    decreases rows.len(),
{
    if rows.len() == 0 {
        None
    } else if rows[0].message_id == mid && rows[0].community_id == cid {
        Some(rows[0])
    } else {
        find_record(rows.drop_first(), mid, cid)
    }
}

/// Model of one `stage` call: insert-or-ignore by `(message_id, community_id)`.
pub open spec fn stage_rows(rows: Seq<RecordModel>, m: RecordModel) -> Seq<RecordModel> {
    if has_record(rows, m.message_id, m.community_id) {
        rows
    } else {
        rows.push(m)
    }
}

/// No two rows share a key.
pub open spec fn store_wf(rows: Seq<RecordModel>) -> bool {
    forall|i: int, j: int|
        0 <= i < j < rows.len() ==> !(rows[i].message_id == rows[j].message_id
            && rows[i].community_id == rows[j].community_id)
}

pub proof fn lemma_find_record_some(rows: Seq<RecordModel>, mid: u64, cid: u64)
    ensures
        has_record(rows, mid, cid) <==> find_record(rows, mid, cid) is Some,
        find_record(rows, mid, cid) matches Some(r) ==> r.message_id == mid
            && r.community_id == cid && rows.contains(r),
    decreases rows.len(),
{
    if rows.len() > 0 {
        lemma_find_record_some(rows.drop_first(), mid, cid);
        if !(rows[0].message_id == mid && rows[0].community_id == cid) {
            assert(has_record(rows, mid, cid) ==> has_record(rows.drop_first(), mid, cid))
                by {
                if has_record(rows, mid, cid) {
                    let i = choose|i: int|
                        0 <= i < rows.len() && rows[i].message_id == mid
                            && rows[i].community_id == cid;
                    assert(rows.drop_first()[i - 1] == rows[i]);
                }
            }
            assert(find_record(rows.drop_first(), mid, cid) matches Some(r) ==> rows.contains(
                r,
            )) by {
                if find_record(rows.drop_first(), mid, cid) is Some {
                    let r = find_record(rows.drop_first(), mid, cid).unwrap();
                    let i = choose|i: int|
                        0 <= i < rows.drop_first().len() && rows.drop_first()[i] == r;
                    assert(rows[i + 1] == r);
                }
            }
        }
    }
}

/// Appending a row does not change the first match of an existing key, and
/// resolves a previously missing key exactly when the new row carries it.
pub proof fn lemma_find_record_push(rows: Seq<RecordModel>, m: RecordModel, mid: u64, cid: u64)
    ensures
        has_record(rows, mid, cid) ==> find_record(rows.push(m), mid, cid) == find_record(
            rows,
            mid,
            cid,
        ),
        !has_record(rows, mid, cid) && m.message_id == mid && m.community_id == cid
            ==> find_record(rows.push(m), mid, cid) == Some(m),
        !has_record(rows, mid, cid) && !(m.message_id == mid && m.community_id == cid)
            ==> find_record(rows.push(m), mid, cid) is None,
        has_record(rows.push(m), mid, cid) <==> has_record(rows, mid, cid) || (m.message_id
            == mid && m.community_id == cid),
    decreases rows.len(),
{
    lemma_find_record_some(rows, mid, cid);
    lemma_find_record_some(rows.push(m), mid, cid);
    if rows.len() == 0 {
        assert(rows.push(m)[0] == m);
        assert(rows.push(m).drop_first() =~= Seq::<RecordModel>::empty());
    } else {
        assert(rows.push(m).drop_first() =~= rows.drop_first().push(m));
        lemma_find_record_push(rows.drop_first(), m, mid, cid);
        if !(rows[0].message_id == mid && rows[0].community_id == cid) {
            assert(has_record(rows, mid, cid) <==> has_record(rows.drop_first(), mid, cid))
                by {
                if has_record(rows, mid, cid) {
                    let i = choose|i: int|
                        0 <= i < rows.len() && rows[i].message_id == mid
                            && rows[i].community_id == cid;
                    assert(rows.drop_first()[i - 1] == rows[i]);
                }
                if has_record(rows.drop_first(), mid, cid) {
                    let i = choose|i: int|
                        0 <= i < rows.drop_first().len() && rows.drop_first()[i].message_id
                            == mid && rows.drop_first()[i].community_id == cid;
                    assert(rows[i + 1] == rows.drop_first()[i]);
                }
            }
        }
    }
}

/// Staging keeps the store well-formed and never disturbs an existing key.
pub proof fn lemma_stage_rows(rows: Seq<RecordModel>, m: RecordModel, mid: u64, cid: u64)
    ensures
        store_wf(rows) ==> store_wf(stage_rows(rows, m)),
        has_record(rows, mid, cid) ==> has_record(stage_rows(rows, m), mid, cid),
        find_record(rows, mid, cid) is Some ==> find_record(stage_rows(rows, m), mid, cid)
            == find_record(rows, mid, cid),
        has_record(stage_rows(rows, m), mid, cid) <==> has_record(rows, mid, cid) || (
        !has_record(rows, m.message_id, m.community_id) && m.message_id == mid
            && m.community_id == cid),
        !has_record(rows, m.message_id, m.community_id) ==> find_record(
            stage_rows(rows, m),
            m.message_id,
            m.community_id,
        ) == Some(m),
        stage_rows(rows, m).len() <= rows.len() + 1,
{
    lemma_find_record_some(rows, mid, cid);
    lemma_find_record_push(rows, m, mid, cid);
    lemma_find_record_push(rows, m, m.message_id, m.community_id);
    if !has_record(rows, m.message_id, m.community_id) {
        assert forall|i: int, j: int|
            0 <= i < j < rows.push(m).len() && store_wf(rows) implies !(rows.push(
            m,
        )[i].message_id == rows.push(m)[j].message_id && rows.push(m)[i].community_id
            == rows.push(m)[j].community_id) by {
            if j == rows.len() {
                assert(!(rows[i].message_id == m.message_id && rows[i].community_id
                    == m.community_id));
            }
        }
    }
}

/// The deduplicated message store.  Its view is the sequence of row models
/// in insertion order.
pub struct MessageStore {
    rows: Vec<MessageRecord>,
}

pub open spec fn row_models(rows: Seq<MessageRecord>) -> Seq<RecordModel> {
    Seq::new(rows.len(), |i: int| record_model(rows[i]))
}

impl View for MessageStore {
    type V = Seq<RecordModel>;

    closed spec fn view(&self) -> Seq<RecordModel> {
        row_models(self.rows@)
    }
}

impl MessageStore {
    pub open spec fn wf(&self) -> bool {
        store_wf(self@)
    }

    /// An empty store.
    pub fn new() -> (r: Self)
        ensures
            r@ == Seq::<RecordModel>::empty(),
            r.wf(),
    {
        let s = MessageStore { rows: Vec::new() };
        proof {
            assert(s@ =~= Seq::<RecordModel>::empty());
        }
        s
    }

    /// Number of rows held; archival failure leaves this unchanged.
    pub fn row_count(&self) -> (n: usize)
        ensures
            n == self@.len(),
    {
        self.rows.len()
    }

    /// Whether the store holds a record under `(mid, cid)`.
    pub fn contains(&self, mid: u64, cid: u64) -> (r: bool)
        ensures
            r == has_record(self@, mid, cid),
    {
        let n = self.rows.len();
        let mut i: usize = 0;
        while i < n
            invariant
                i <= n,
                n == self@.len(),
                forall|j: int|
                    0 <= j < i ==> !(self@[j].message_id == mid && self@[j].community_id
                        == cid),
            decreases n - i,
        {
            if self.rows[i].message_id == mid && self.rows[i].community_id == cid {
                assert(self@[i as int].message_id == mid && self@[i as int].community_id
                    == cid);
                return true;
            }
            i += 1;
        }
        false
    }

    /// Insert-or-ignore: a repeated insert of an already held key is a
    /// silent no-op, not an error.
    pub fn stage(&mut self, m: MessageRecord)
        requires
            old(self).wf(),
        ensures
            final(self).wf(),
            final(self)@ == stage_rows(old(self)@, record_model(m)),
    {
        let ghost model = record_model(m);
        if !self.contains(m.message_id, m.community_id) {
            let ghost prev = self.rows@;
            self.rows.push(m);
            proof {
                assert(self@ =~= row_models(prev).push(model));
                lemma_stage_rows(row_models(prev), model, m.message_id, m.community_id);
            }
        }
    }

    /// First (and, in a well-formed store, only) record under `(mid, cid)`.
    pub fn get(&self, mid: u64, cid: u64) -> (r: Result<&MessageRecord, ArchiveError>)
        ensures
            match r {
                Ok(rec) => has_record(self@, mid, cid) && Some(record_model(*rec))
                    == find_record(self@, mid, cid),
                Err(e) => !has_record(self@, mid, cid) && e == ArchiveError::NotFound,
            },
    {
        let n = self.rows.len();
        let mut i: usize = 0;
        proof {
            assert(self@.skip(0) =~= self@);
        }
        while i < n
            invariant
                i <= n,
                n == self@.len(),
                find_record(self@, mid, cid) == find_record(self@.skip(i as int), mid, cid),
                forall|j: int|
                    0 <= j < i ==> !(self@[j].message_id == mid && self@[j].community_id
                        == cid),
            decreases n - i,
        {
            proof {
                assert(self@.skip(i as int).drop_first() =~= self@.skip(i + 1));
                assert(self@.skip(i as int)[0] == self@[i as int]);
            }
            if self.rows[i].message_id == mid && self.rows[i].community_id == cid {
                proof {
                    assert(self@[i as int].message_id == mid && self@[i as int].community_id
                        == cid);
                    lemma_find_record_some(self@, mid, cid);
                }
                return Ok(&self.rows[i]);
            }
            i += 1;
        }
        proof {
            assert(self@.skip(n as int) =~= Seq::<RecordModel>::empty());
            lemma_find_record_some(self@, mid, cid);
        }
        Err(ArchiveError::NotFound)
    }
}

} // verus!
