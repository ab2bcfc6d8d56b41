//! The extraction stage: filters each transaction's events by the registry,
//! decodes them in parallel, and gathers the records in batch order.

use vstd::prelude::*;
use rayon::iter::IndexedParallelIterator;
use rayon::iter::IntoParallelRefIterator;
use rayon::iter::ParallelIterator;
use crate::model::{
    outcome_view, records_view, spec_build, EventModel, ExtractError, FailureView, RecordView,
};
use crate::registry::{is_recognized, is_recognized_tag};
use crate::transaction::{RawEvent, Transaction};

verus! {

/// The records that a run of raw events yields, in order: events with an
/// unrecognized tag are skipped, and the first recognized event that does not
/// decode fails the whole run.
pub open spec fn build_records(evs: Seq<RawEvent>, version: i64, block_height: i64) -> Result<
    Seq<RecordView>,
    FailureView,
>
    decreases evs.len(),
{
    if evs.len() == 0 {
        Ok(Seq::empty())
    } else {
        let e = evs.last();
        match build_records(evs.drop_last(), version, block_height) {
            Err(f) => Err(f),
            Ok(prev) => if !is_recognized_tag(e.type_str@) {
                Ok(prev)
            } else {
                match spec_build(e, version, block_height) {
                    Err(f) => Err(f),
                    Ok(rs) => Ok(prev + rs),
                }
            },
        }
    }
}

/// The outcome of extracting one transaction.
pub open spec fn spec_extract_transaction(t: Transaction) -> Result<Seq<RecordView>, FailureView> {
    build_records(t.spec_raw_events(), t.spec_version(), t.spec_block_height())
}

/// Concatenation of per-transaction outcomes in order; the first failure wins.
pub open spec fn concat_outcomes(os: Seq<Result<Seq<RecordView>, FailureView>>) -> Result<
    Seq<RecordView>,
    FailureView,
>
    decreases os.len(),
{
    if os.len() == 0 {
        Ok(Seq::empty())
    } else {
        match concat_outcomes(os.drop_last()) {
            Err(f) => Err(f),
            Ok(prev) => match os.last() {
                Err(f) => Err(f),
                Ok(rs) => Ok(prev + rs),
            },
        }
    }
}

/// The outcome of extracting a whole batch.
pub open spec fn spec_extract_batch(ts: Seq<Transaction>) -> Result<Seq<RecordView>, FailureView> {
    concat_outcomes(ts.map_values(|t: Transaction| spec_extract_transaction(t)))
}

/// Versions of the transactions that have no usable payload, in batch order.
pub open spec fn spec_missing_payload_versions(ts: Seq<Transaction>) -> Seq<i64>
    decreases ts.len(),
{
    if ts.len() == 0 {
        Seq::empty()
    } else {
        let prev = spec_missing_payload_versions(ts.drop_last());
        if ts.last().spec_payload_missing() {
            prev.push(ts.last().spec_version())
        } else {
            prev
        }
    }
}

/// Extracts the records of one transaction: resolves its raw events, keeps
/// those with a recognized tag in their order, and decodes each.
pub fn extract_transaction(t: &Transaction) -> (r: Result<Vec<EventModel>, ExtractError>)
    ensures
        outcome_view(r) == spec_extract_transaction(*t),
{
    let version = t.signed_version();
    let block_height = t.signed_block_height();
    let raw = t.raw_events();
    let mut out: Vec<EventModel> = Vec::new();
    let mut i: usize = 0;
    proof {
        assert(raw@.take(0) =~= Seq::<RawEvent>::empty());
        assert(records_view(out@) =~= Seq::<RecordView>::empty());
    }
    while i < raw.len()
        invariant
            raw@ == t.spec_raw_events(),
            version == t.spec_version(),
            block_height == t.spec_block_height(),
            i <= raw@.len(),
            build_records(raw@.take(i as int), version, block_height) == Ok::<
                Seq<RecordView>,
                FailureView,
            >(records_view(out@)),
        decreases raw@.len() - i,
    {
        let e = &raw[i];
        proof {
            assert(raw@.take(i + 1).drop_last() =~= raw@.take(i as int));
            assert(raw@.take(i + 1).last() == raw@[i as int]);
        }
        if is_recognized(e.type_str.as_str()) {
            match EventModel::from_event(e, version, block_height) {
                Ok(mut ms) => {
                    let ghost prev = out@;
                    let ghost built = ms@;
                    out.append(&mut ms);
                    proof {
                        assert(records_view(out@) =~= records_view(prev) + records_view(built));
                    }
                },
                Err(f) => {
                    proof {
                        lemma_build_records_failure_persists(
                            raw@,
                            (i + 1) as int,
                            version,
                            block_height,
                        );
                    }
                    return Err(f);
                },
            }
        }
        i = i + 1;
    }
    proof {
        assert(raw@.take(raw@.len() as int) =~= raw@);
    }
    Ok(out)
}

/// Once a prefix of the events fails, every longer run fails the same way.
proof fn lemma_build_records_failure_persists(
    evs: Seq<RawEvent>,
    n: int,
    version: i64,
    block_height: i64,
)
    requires
        0 <= n <= evs.len(),
        build_records(evs.take(n), version, block_height) is Err,
    ensures
        build_records(evs, version, block_height) == build_records(
            evs.take(n),
            version,
            block_height,
        ),
    decreases evs.len() - n,
{
    if n < evs.len() {
        let longer = evs.take(n + 1);
        assert(longer.drop_last() =~= evs.take(n));
        lemma_build_records_failure_persists(evs, n + 1, version, block_height);
    } else {
        assert(evs.take(n) =~= evs);
    }
}

/// Relies on rayon's `par_iter().map(..).collect_into_vec(..)`: the vector is
/// filled with one result per transaction, at the transaction's own index,
/// whatever order the workers ran in.
#[verifier::external_body]
fn extract_each(txns: &Vec<Transaction>) -> (r: Vec<Result<Vec<EventModel>, ExtractError>>)
    ensures
        r@.len() == txns@.len(),
        forall|i: int|
            0 <= i < txns@.len() ==> #[trigger] outcome_view(r@[i]) == spec_extract_transaction(
                txns@[i],
            ),
{
    let mut out: Vec<Result<Vec<EventModel>, ExtractError>> = Vec::new();
    txns.par_iter().map(|t| extract_transaction(t)).collect_into_vec(&mut out);
    out
}

/// The views of a list of per-transaction outcomes.
pub open spec fn outcomes_view(parts: Seq<Result<Vec<EventModel>, ExtractError>>) -> Seq<
    Result<Seq<RecordView>, FailureView>,
> {
    parts.map_values(|p: Result<Vec<EventModel>, ExtractError>| outcome_view(p))
}

/// Concatenates per-transaction outcomes strictly in index order, failing
/// with the first failure among them.
pub fn gather(parts: Vec<Result<Vec<EventModel>, ExtractError>>) -> (r: Result<
    Vec<EventModel>,
    ExtractError,
>)
    ensures
        outcome_view(r) == concat_outcomes(outcomes_view(parts@)),
{
    let ghost all = outcomes_view(parts@);
    let mut out: Vec<EventModel> = Vec::new();
    proof {
        assert(all.take(0) =~= Seq::<Result<Seq<RecordView>, FailureView>>::empty());
        assert(records_view(out@) =~= Seq::<RecordView>::empty());
    }
    for part in it: parts
        invariant
            all == outcomes_view(it.seq()),
            it.index() <= all.len(),
            concat_outcomes(all.take(it.index() as int)) == Ok::<Seq<RecordView>, FailureView>(
                records_view(out@),
            ),
    {
        let ghost k = it.index() as int;
        proof {
            assert(all.take(k + 1).drop_last() =~= all.take(k));
            assert(all.take(k + 1).last() == outcome_view(part));
        }
        match part {
            Ok(mut ms) => {
                let ghost prev = out@;
                let ghost built = ms@;
                out.append(&mut ms);
                proof {
                    assert(records_view(out@) =~= records_view(prev) + records_view(built));
                }
            },
            Err(f) => {
                proof {
                    lemma_concat_failure_persists(all, k + 1);
                }
                return Err(f);
            },
        }
    }
    proof {
        assert(all.take(all.len() as int) =~= all);
    }
    Ok(out)
}

/// Once a prefix of the outcomes fails, the whole concatenation fails the
/// same way.
proof fn lemma_concat_failure_persists(os: Seq<Result<Seq<RecordView>, FailureView>>, n: int)
    requires
        0 <= n <= os.len(),
        concat_outcomes(os.take(n)) is Err,
    ensures
        concat_outcomes(os) == concat_outcomes(os.take(n)),
    decreases os.len() - n,
{
    if n < os.len() {
        assert(os.take(n + 1).drop_last() =~= os.take(n));
        lemma_concat_failure_persists(os, n + 1);
    } else {
        assert(os.take(n) =~= os);
    }
}

/// A batch of items paired with metadata that the stage only passes on.
pub struct TransactionContext<T, M> {
    pub data: T,
    pub metadata: M,
}

/// The extraction stage of the processing pipeline.
pub struct EventsExtractor {}

impl EventsExtractor {
    pub fn new() -> (r: EventsExtractor) {
        EventsExtractor {  }
    }

    /// The stage's name in the pipeline.
    pub fn name(&self) -> (r: String)
        ensures
            r@ == "EventsExtractor"@,
    {
        "EventsExtractor".to_owned()
    }

    /// Extracts the records of every transaction of the batch, in batch order,
    /// and passes the metadata on unchanged. Fails, with no output, on the first
    /// recognized event that does not decode.
    pub fn process<M>(&mut self, item: TransactionContext<Vec<Transaction>, M>) -> (r: Result<
        TransactionContext<Vec<EventModel>, M>,
        ExtractError,
    >)
        ensures
            spec_extract_batch(item.data@) is Ok <==> r is Ok,
            r matches Ok(out) ==> Ok::<Seq<RecordView>, FailureView>(records_view(out.data@))
                == spec_extract_batch(item.data@) && out.metadata == item.metadata,
            r matches Err(f) ==> Err::<Seq<RecordView>, FailureView>(f@) == spec_extract_batch(
                item.data@,
            ),
    {
        let TransactionContext { data, metadata } = item;
        let parts = extract_each(&data);
        proof {
            assert(outcomes_view(parts@) =~= data@.map_values(
                |t: Transaction| spec_extract_transaction(t),
            ));
        }
        match gather(parts) {
            Ok(events) => Ok(TransactionContext { data: events, metadata }),
            Err(f) => Err(f),
        }
    }
}

/// Versions of the transactions of the batch that have no usable payload, in
/// batch order: each one is worth a warning, and none of them is an error.
pub fn missing_payload_versions(txns: &Vec<Transaction>) -> (r: Vec<i64>)
    ensures
        r@ == spec_missing_payload_versions(txns@),
{
    let mut out: Vec<i64> = Vec::new();
    let mut i: usize = 0;
    proof {
        assert(txns@.take(0) =~= Seq::<Transaction>::empty());
    }
    while i < txns.len()
        invariant
            i <= txns@.len(),
            out@ == spec_missing_payload_versions(txns@.take(i as int)),
        decreases txns@.len() - i,
    {
        proof {
            assert(txns@.take(i + 1).drop_last() =~= txns@.take(i as int));
        }
        if txns[i].payload_missing() {
            out.push(txns[i].signed_version());
        }
        i = i + 1;
    }
    proof {
        assert(txns@.take(txns@.len() as int) =~= txns@);
    }
    out
}

} // verus!
