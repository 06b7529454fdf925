use vstd::prelude::*;
use crate::record::{clone_record, views_of, ElementRecord, RecordView};

verus! {

/// Holder for the most recent traversal result.  The stored sequence is
/// replaced wholesale by `set` and read by `snapshot`, which hands back a
/// defensive copy, never an alias of the stored records.  Where a
/// windowing callback forces the store into shared state, the host wraps
/// it in an exclusive-access guard held only for the duration of the
/// copy, never across a drawing call.
pub struct ElementStore {
    records: Vec<ElementRecord>,
}

impl View for ElementStore {
    type V = Seq<RecordView>;

    closed spec fn view(&self) -> Seq<RecordView> {
        views_of(self.records@)
    }
}

/// The snapshot-idempotence law: `snapshot` promises a result whose
/// views equal the store's contents, so any two snapshots taken without
/// an intervening `set` return sequences with equal views.
pub proof fn lemma_snapshot_idempotent(
    contents: Seq<RecordView>,
    first: Seq<ElementRecord>,
    second: Seq<ElementRecord>,
)
    requires
        views_of(first) == contents,
        views_of(second) == contents,
    ensures
        views_of(first) == views_of(second),
{
}

impl ElementStore {
    /// A store holding no records.
    pub fn new() -> (s: Self)
        ensures
            s@ == Seq::<RecordView>::empty(),
    {
        let s = ElementStore { records: Vec::new() };
        proof {
            assert(s@ =~= Seq::<RecordView>::empty());
        }
        s
    }

    /// Replace the stored sequence with `records`.
    pub fn set(&mut self, records: Vec<ElementRecord>)
        ensures
            final(self)@ == views_of(records@),
    {
        self.records = records;
    }

    /// The current sequence, as a copy.  Two snapshots taken without an
    /// intervening `set` return sequences with equal views.
    pub fn snapshot(&self) -> (out: Vec<ElementRecord>)
        ensures
            views_of(out@) == self@,
    {
        let mut out: Vec<ElementRecord> = Vec::new();
        let n = self.records.len();
        let mut i: usize = 0;
        proof {
            assert(views_of(out@) =~= self@.take(0));
        }
        while i < n
            invariant
                n == self.records@.len(),
                i <= n,
                views_of(out@) == self@.take(i as int),
            decreases n - i,
        {
            let ghost prev = out@;
            let c = clone_record(&self.records[i]);
            out.push(c);
            proof {
                assert(out@ == prev.push(c));
                assert(views_of(prev).len() == prev.len());
                assert(prev.len() == i as int);
                assert forall|k: int| 0 <= k < out@.len() implies
                    views_of(out@)[k] == self@.take(i + 1)[k] by {
                    if k < i {
                        assert(views_of(prev)[k] == self@.take(i as int)[k]);
                        assert(out@[k] == prev[k]);
                    } else {
                        assert(out@[k] == c);
                        assert(c@ == self.records@[i as int]@);
                    }
                }
                assert(views_of(out@) =~= self@.take(i + 1));
            }
            i = i + 1;
        }
        proof {
            assert(self@.take(n as int) =~= self@);
        }
        out
    }
}

} // verus!
