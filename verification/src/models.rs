//! Rows of the statistics page and of the subscription listing.

use vstd::prelude::*;

verus! {

/// Live proxies of one country.
#[derive(Debug)]
pub struct CountryCount {
    pub country: String,
    pub count: i64,
}

/// Live proxies in one latency range.
#[derive(Debug)]
pub struct LatencyBucket {
    pub range: String,
    pub count: i64,
}

/// Live proxies of one protocol.
#[derive(Debug)]
pub struct ProtocolCount {
    pub protocol: String,
    pub count: i64,
}

/// Proxies (with at least one success) in one score range.
#[derive(Debug)]
pub struct ScoreBucket {
    pub range: String,
    pub count: i64,
}

/// A subscription source as listed to the administrator (its raw text
/// content left out, timestamps as `YYYY-MM-DD HH:MM:SS`).
#[derive(Debug)]
pub struct SubscriptionSourceResponse {
    pub id: i64,
    pub name: String,
    pub source_type: String,
    pub url: Option<String>,
    pub protocol_hint: String,
    pub is_enabled: bool,
    pub sync_interval_secs: i64,
    pub proxy_count: i64,
    pub last_sync_at: Option<String>,
    pub last_error: Option<String>,
    pub created_at: String,
}

/// Labels of the score ranges: `[0,20)`, `[20,40)`, `[40,60)`, `[60,80)`,
/// `[80,90)` and `[90,100]`.
pub open spec fn score_labels() -> Seq<Seq<char>> {
    seq!["0-20"@, "20-40"@, "40-60"@, "60-80"@, "80-90"@, "90-100"@]
}

fn bucket(label: &str, count: i64) -> (res: ScoreBucket)
    ensures
        res.range@ == label@,
        res.count == count,
{
    let mut range = String::new();
    crate::text::push_str(&mut range, label);
    proof {
        assert(range@ =~= label@);
    }
    ScoreBucket { range, count }
}

/// The score distribution from the counts of the six ranges, in order.
pub fn score_distribution(counts: (i64, i64, i64, i64, i64, i64)) -> (res: Vec<ScoreBucket>)
    ensures
        res@.len() == 6,
        forall|i: int| 0 <= i < 6 ==> #[trigger] res@[i].range@ == score_labels()[i],
        res@[0].count == counts.0,
        res@[1].count == counts.1,
        res@[2].count == counts.2,
        res@[3].count == counts.3,
        res@[4].count == counts.4,
        res@[5].count == counts.5,
{
    let res = vec![
        bucket("0-20", counts.0),
        bucket("20-40", counts.1),
        bucket("40-60", counts.2),
        bucket("60-80", counts.3),
        bucket("80-90", counts.4),
        bucket("90-100", counts.5),
    ];
    proof {
        assert forall|i: int| 0 <= i < 6 implies #[trigger] res@[i].range@ == score_labels()[i] by {
            if i == 0 {
            } else if i == 1 {
            } else if i == 2 {
            } else if i == 3 {
            } else if i == 4 {
            } else {
            }
        }
    }
    res
}

} // verus!
