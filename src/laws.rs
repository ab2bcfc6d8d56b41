//! Properties of extraction that relate several transactions, several events
//! or several calls.

use vstd::prelude::*;
use crate::extractor::{build_records, concat_outcomes, spec_extract_batch, spec_extract_transaction};
use crate::model::{json_decodes, record_of, FailureView, RecordView};
use crate::registry::is_recognized_tag;
use crate::transaction::{RawEvent, Transaction};

verus! {

/// Outcome of extracting two consecutive runs: the records of the first run
/// followed by those of the second, or the first failure.
pub open spec fn combine(
    a: Result<Seq<RecordView>, FailureView>,
    b: Result<Seq<RecordView>, FailureView>,
) -> Result<Seq<RecordView>, FailureView> {
    match a {
        Err(f) => Err(f),
        Ok(x) => match b {
            Err(f) => Err(f),
            Ok(y) => Ok(x + y),
        },
    }
}

/// The raw events of a run whose tag is recognized, in the order they were emitted.
pub open spec fn recognized_events(evs: Seq<RawEvent>) -> Seq<RawEvent> {
    evs.filter(|e: RawEvent| is_recognized_tag(e.type_str@))
}

proof fn lemma_concat_outcomes_append(
    x: Seq<Result<Seq<RecordView>, FailureView>>,
    y: Seq<Result<Seq<RecordView>, FailureView>>,
)
    ensures
        concat_outcomes(x + y) == combine(concat_outcomes(x), concat_outcomes(y)),
    decreases y.len(),
{
    if y.len() == 0 {
        assert(x + y =~= x);
        if let Ok(p) = concat_outcomes(x) {
            assert(p + Seq::<RecordView>::empty() =~= p);
        }
    } else {
        assert((x + y).drop_last() =~= x + y.drop_last());
        assert((x + y).last() == y.last());
        lemma_concat_outcomes_append(x, y.drop_last());
        if let Ok(p) = concat_outcomes(x) {
            if let Ok(q) = concat_outcomes(y.drop_last()) {
                if let Ok(z) = y.last() {
                    assert(p + q + z =~= p + (q + z));
                }
            }
        }
    }
}

/// Order across transactions: extracting the batch `a + b` yields the records
/// of `a` followed by the records of `b`; a failure in `a` comes before any in `b`.
pub proof fn lemma_batch_order(a: Seq<Transaction>, b: Seq<Transaction>)
    ensures
        spec_extract_batch(a + b) == combine(spec_extract_batch(a), spec_extract_batch(b)),
{
    let f = |t: Transaction| spec_extract_transaction(t);
    assert((a + b).map_values(f) =~= a.map_values(f) + b.map_values(f));
    lemma_concat_outcomes_append(a.map_values(f), b.map_values(f));
}

/// Filtering within one run of events: it succeeds exactly when every event
/// with a recognized tag decodes, and then yields one record per such event,
/// in the events' order; events with other tags contribute nothing.
pub proof fn lemma_build_records_filtering(evs: Seq<RawEvent>, version: i64, block_height: i64)
    ensures
        build_records(evs, version, block_height) is Ok <==> forall|j: int|
            0 <= j < recognized_events(evs).len() ==> json_decodes(
                #[trigger] recognized_events(evs)[j].data@,
            ),
        build_records(evs, version, block_height) is Ok ==> build_records(
            evs,
            version,
            block_height,
        )->Ok_0 == recognized_events(evs).map_values(
            |e: RawEvent| record_of(e, version, block_height),
        ),
    decreases evs.len(),
{
    reveal(Seq::filter);
    if evs.len() > 0 {
        let rest = evs.drop_last();
        let e = evs.last();
        lemma_build_records_filtering(rest, version, block_height);
        let fr = recognized_events(rest);
        let fe = recognized_events(evs);
        let rec = |e: RawEvent| record_of(e, version, block_height);
        if is_recognized_tag(e.type_str@) {
            assert(fe == fr.push(e));
            assert(fe.map_values(rec) =~= fr.map_values(rec).push(rec(e)));
            if let Ok(p) = build_records(rest, version, block_height) {
                assert(p + seq![rec(e)] =~= p.push(rec(e)));
            }
            assert(forall|j: int| 0 <= j < fr.len() ==> fe[j] == fr[j]);
            assert(fe[fr.len() as int] == e);
        } else {
            assert(fe == fr);
        }
    } else {
        assert(recognized_events(evs) =~= Seq::<RawEvent>::empty());
    }
}

/// Filtering within one transaction: every record comes from a raw event with
/// a recognized tag, in raw-event order, and every such event that decodes
/// yields exactly its record.
pub proof fn lemma_transaction_filtering(t: Transaction)
    ensures
        spec_extract_transaction(t) is Ok <==> forall|j: int|
            0 <= j < recognized_events(t.spec_raw_events()).len() ==> json_decodes(
                #[trigger] recognized_events(t.spec_raw_events())[j].data@,
            ),
        spec_extract_transaction(t) is Ok ==> spec_extract_transaction(t)->Ok_0 == recognized_events(
            t.spec_raw_events(),
        ).map_values(|e: RawEvent| record_of(e, t.spec_version(), t.spec_block_height())),
{
    lemma_build_records_filtering(t.spec_raw_events(), t.spec_version(), t.spec_block_height());
}

proof fn lemma_batch_single(t: Transaction)
    ensures
        spec_extract_batch(seq![t]) == spec_extract_transaction(t),
{
    let f = |t: Transaction| spec_extract_transaction(t);
    let m = seq![t].map_values(f);
    assert(m.drop_last() =~= Seq::empty());
    assert(concat_outcomes(m.drop_last()) == Ok::<Seq<RecordView>, FailureView>(Seq::empty()));
    assert(m.last() == spec_extract_transaction(t));
    if let Ok(q) = spec_extract_transaction(t) {
        assert(Seq::<RecordView>::empty() + q =~= q);
    }
}

/// Soundness of the batch: every record of a successful extraction carries a
/// recognized tag.
pub proof fn lemma_batch_records_recognized(ts: Seq<Transaction>)
    ensures
        spec_extract_batch(ts) is Ok ==> forall|k: int|
            0 <= k < spec_extract_batch(ts)->Ok_0.len() ==> is_recognized_tag(
                #[trigger] spec_extract_batch(ts)->Ok_0[k].2,
            ),
    decreases ts.len(),
{
    if ts.len() > 0 {
        let init = ts.drop_last();
        let t = ts.last();
        assert(ts =~= init + seq![t]);
        lemma_batch_order(init, seq![t]);
        lemma_batch_records_recognized(init);
        lemma_transaction_filtering(t);
        lemma_batch_single(t);
        if let (Ok(p), Ok(q)) = (spec_extract_batch(init), spec_extract_transaction(t)) {
            let fe = recognized_events(t.spec_raw_events());
            assert forall|j: int| 0 <= j < fe.len() implies is_recognized_tag(
                #[trigger] fe[j].type_str@,
            ) by {
                t.spec_raw_events().filter_lemma(|e: RawEvent| is_recognized_tag(e.type_str@));
            }
            assert(forall|j: int| 0 <= j < q.len() ==> q[j].2 == #[trigger] fe[j].type_str@);
            let all = p + q;
            assert forall|k: int| 0 <= k < all.len() implies is_recognized_tag(#[trigger] all[k].2) by {
                if k >= p.len() {
                    assert(all[k] == q[k - p.len()]);
                    assert(is_recognized_tag(fe[k - p.len()].type_str@));
                }
            }
        }
    }
}

/// A transaction without a usable payload contributes no record and no failure.
pub proof fn lemma_missing_payload_contributes_nothing(t: Transaction)
    requires
        t.spec_payload_missing(),
    ensures
        spec_extract_transaction(t) == Ok::<Seq<RecordView>, FailureView>(Seq::empty()),
{
}

/// A transaction without a usable payload may stand anywhere in a batch
/// without changing its outcome.
pub proof fn lemma_missing_payload_is_transparent(
    a: Seq<Transaction>,
    t: Transaction,
    b: Seq<Transaction>,
)
    requires
        t.spec_payload_missing(),
    ensures
        spec_extract_batch(a + seq![t] + b) == spec_extract_batch(a + b),
{
    lemma_batch_order(a + seq![t], b);
    lemma_batch_order(a, seq![t]);
    lemma_batch_order(a, b);
    lemma_batch_single(t);
    if let Ok(p) = spec_extract_batch(a) {
        assert(p + Seq::<RecordView>::empty() =~= p);
    }
}

/// Determinism: the outcome is a function of the batch alone, so equal
/// batches give equal outcomes however the work was scheduled.
pub proof fn lemma_extraction_deterministic(a: Seq<Transaction>, b: Seq<Transaction>)
    requires
        a == b,
    ensures
        spec_extract_batch(a) == spec_extract_batch(b),
{
}

} // verus!
