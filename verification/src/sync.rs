//! Subscription sync bookkeeping: what is recorded for each synced source,
//! how many proxies a round brought in, and whether a check cycle follows.

use vstd::prelude::*;

verus! {

/// Result of a sync of all sources, as answered to the administrator.
#[derive(Debug)]
pub struct SyncResult {
    pub synced: usize,
}

/// Result of adding a source: its id and the proxies its first sync
/// brought in.
#[derive(Debug)]
pub struct AddSourceResult {
    pub id: i64,
    pub synced: usize,
}

/// What is stored for a source after a sync: the proxy count and the
/// error text of a failed sync.
#[derive(Debug)]
pub struct SyncRecord {
    pub source_id: i64,
    pub proxy_count: i64,
    pub error: Option<String>,
}

impl View for SyncRecord {
    type V = (i64, i64, Option<Seq<char>>);

    open spec fn view(&self) -> (i64, i64, Option<Seq<char>>) {
        (
            self.source_id,
            self.proxy_count,
            match self.error {
                Some(e) => Some(e@),
                None => None,
            },
        )
    }
}

pub open spec fn outcome_view(r: Result<usize, String>) -> Result<usize, Seq<char>> {
    match r {
        Ok(n) => Ok(n),
        Err(e) => Err(e@),
    }
}

/// The record of one sync: the count on success (stored as a 64-bit
/// count), zero and the error text on failure.
pub open spec fn record_of(source_id: i64, outcome: Result<usize, Seq<char>>) -> (
    i64,
    i64,
    Option<Seq<char>>,
) {
    match outcome {
        Ok(n) => (source_id, n as i64, None),
        Err(e) => (source_id, 0, Some(e)),
    }
}

/// Proxies brought in by one sync.
pub open spec fn gained(outcome: Result<usize, Seq<char>>) -> int {
    match outcome {
        Ok(n) => n as int,
        Err(_) => 0,
    }
}

pub open spec fn round_view(results: Seq<(i64, Result<usize, String>)>) -> Seq<
    (i64, Result<usize, Seq<char>>),
> {
    results.map_values(|p: (i64, Result<usize, String>)| (p.0, outcome_view(p.1)))
}

/// Proxies brought in by a round of syncs.
pub open spec fn round_total(results: Seq<(i64, Result<usize, Seq<char>>)>) -> int
    decreases results.len(),
{
    if results.len() == 0 {
        0
    } else {
        round_total(results.drop_last()) + gained(results.last().1)
    }
}

pub proof fn lemma_round_total_prefix(results: Seq<(i64, Result<usize, Seq<char>>)>, k: int)
    requires
        0 <= k <= results.len(),
    ensures
        0 <= round_total(results.take(k)) <= round_total(results),
    decreases results.len(),
{
    if results.len() == 0 {
        assert(results.take(k) =~= results);
    } else if k == results.len() {
        assert(results.take(k) =~= results);
        lemma_round_total_prefix(results.drop_last(), results.len() - 1);
        assert(results.drop_last().take(results.len() - 1) =~= results.drop_last());
    } else {
        lemma_round_total_prefix(results.drop_last(), k);
        assert(results.drop_last().take(k) =~= results.take(k));
    }
}

/// The record stored for a source after one sync.
pub fn sync_record(source_id: i64, outcome: &Result<usize, String>) -> (res: SyncRecord)
    ensures
        res@ == record_of(source_id, outcome_view(*outcome)),
{
    match outcome {
        Ok(n) => SyncRecord { source_id, proxy_count: *n as i64, error: None },
        Err(e) => SyncRecord { source_id, proxy_count: 0, error: Some(e.clone()) },
    }
}

/// A round of scheduled syncs: one record per source, in order, the
/// proxies brought in altogether, and whether a check cycle follows (only
/// when some proxies came in).
pub fn sync_round(results: &Vec<(i64, Result<usize, String>)>) -> (res: (Vec<SyncRecord>, usize, bool))
    requires
        round_total(round_view(results@)) <= usize::MAX,
    ensures
        res.0@.len() == results@.len(),
        forall|k: int|
            0 <= k < results@.len() ==> #[trigger] res.0@[k]@ == record_of(
                results@[k].0,
                outcome_view(results@[k].1),
            ),
        res.1 == round_total(round_view(results@)),
        res.2 == (res.1 > 0),
{
    let ghost rv = round_view(results@);
    let mut records: Vec<SyncRecord> = Vec::new();
    let mut total: usize = 0;
    let mut i: usize = 0;
    while i < results.len()
        invariant
            i <= results@.len(),
            rv == round_view(results@),
            rv.len() == results@.len(),
            round_total(rv) <= usize::MAX,
            records@.len() == i,
            forall|k: int|
                0 <= k < i ==> #[trigger] records@[k]@ == record_of(
                    results@[k].0,
                    outcome_view(results@[k].1),
                ),
            total == round_total(rv.take(i as int)),
        decreases results@.len() - i,
    {
        let entry = &results[i];
        let rec = sync_record(entry.0, &entry.1);
        proof {
            assert(rv.take(i + 1).drop_last() =~= rv.take(i as int));
            assert(rv.take(i + 1).last() == rv[i as int]);
            lemma_round_total_prefix(rv, i + 1);
        }
        match &entry.1 {
            Ok(n) => {
                total = total + *n;
            },
            Err(_) => {},
        }
        records.push(rec);
        i = i + 1;
    }
    proof {
        assert(rv.take(i as int) =~= rv);
    }
    let check = total > 0;
    (records, total, check)
}

/// After a source is added: when it could be read back, its first sync is
/// recorded and its count answered (zero on failure); when it could not,
/// nothing is recorded and zero is answered. A check cycle follows only
/// when proxies came in.
pub fn added_source_outcome(id: i64, first_sync: &Option<Result<usize, String>>) -> (res: (
    AddSourceResult,
    Option<SyncRecord>,
    bool,
))
    ensures
        res.0.id == id,
        res.0.synced == match *first_sync {
            Some(Ok(n)) => n,
            _ => 0,
        },
        match *first_sync {
            Some(o) => res.1 matches Some(r) && r@ == record_of(id, outcome_view(o)),
            None => res.1 is None,
        },
        res.2 == (res.0.synced > 0),
{
    let (synced, record) = match first_sync {
        Some(o) => {
            let r = sync_record(id, o);
            let n = match o {
                Ok(n) => *n,
                Err(_) => 0,
            };
            (n, Some(r))
        },
        None => (0, None),
    };
    (AddSourceResult { id, synced }, record, synced > 0)
}

/// Answer of a sync of all sources, and whether a check cycle follows.
pub fn sync_answer(synced: usize) -> (res: (SyncResult, bool))
    ensures
        res.0.synced == synced,
        res.1 == (synced > 0),
{
    (SyncResult { synced }, synced > 0)
}

} // verus!
