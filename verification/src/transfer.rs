//! The transfer orchestrator: transfer records, retry accounting, bot
//! reliability statistics, the bounded download history and the running
//! analytics, all owned by one manager whose operations carry exact
//! contracts.

use vstd::prelude::*;
use crate::locator::XdccUrl;
use crate::trusted::{now_secs, fresh_id, token_new, token_clone, token_cancel};
use tokio_util::sync::CancellationToken;

verus! {

/// Lifecycle of one transfer; forward-only during an attempt, `Pending`
/// re-entered only by an explicit retry.
#[derive(Clone, Copy, Debug, PartialEq, Eq, Structural)]
pub enum TransferStatus {
    Pending,
    Connecting,
    Joining,
    Requesting,
    Downloading,
    Completed,
    Failed,
    Cancelled,
}

impl TransferStatus {
    /// A status no attempt moves on from.
    pub open spec fn is_terminal(self) -> bool {
        self is Completed || self is Failed || self is Cancelled
    }

    /// Whether this status is terminal.
    pub fn terminal(&self) -> (r: bool)
        ensures
            r == self.is_terminal(),
    {
        match self {
            TransferStatus::Completed => true,
            TransferStatus::Failed => true,
            TransferStatus::Cancelled => true,
            _ => false,
        }
    }
}

/// Queueing priority of a transfer.
#[derive(Clone, Copy, Debug, PartialEq, Eq, Structural)]
pub enum TransferPriority {
    Low,
    Normal,
    High,
    Urgent,
}

/// One transfer's record: identity, target, lifecycle and progress.
/// Speeds are bytes per second and progress a whole percent; timestamps
/// are seconds since the Unix epoch.
#[derive(Debug)]
pub struct XdccTransfer {
    pub id: String,
    pub url: XdccUrl,
    pub status: TransferStatus,
    pub filename: Option<String>,
    pub size: Option<u64>,
    pub downloaded: u64,
    pub speed: u64,
    pub progress: u64,
    pub error: Option<String>,
    pub created_at: i64,
    pub updated_at: i64,
}

/// Clone an optional string, keeping its value.
fn clone_opt_string(s: &Option<String>) -> (r: Option<String>)
    ensures
        r == s,
{
    match s {
        Some(v) => Some(v.clone()),
        None => None,
    }
}

impl Clone for XdccTransfer {
    fn clone(&self) -> (r: Self)
        ensures
            r == self,
    {
        XdccTransfer {
            id: self.id.clone(),
            url: self.url.clone(),
            status: self.status,
            filename: clone_opt_string(&self.filename),
            size: self.size,
            downloaded: self.downloaded,
            speed: self.speed,
            progress: self.progress,
            error: clone_opt_string(&self.error),
            created_at: self.created_at,
            updated_at: self.updated_at,
        }
    }
}

impl XdccTransfer {
    /// A fresh `Pending` record for the given target.
    pub fn new(id: String, url: XdccUrl) -> (r: Self)
        ensures
            r.id == id,
            r.url == url,
            r.status is Pending,
            r.filename is None,
            r.size is None,
            r.downloaded == 0,
            r.speed == 0,
            r.progress == 0,
            r.error is None,
            r.created_at == r.updated_at,
    {
        let now = now_secs();
        XdccTransfer {
            id,
            url,
            status: TransferStatus::Pending,
            filename: None,
            size: None,
            downloaded: 0,
            speed: 0,
            progress: 0,
            error: None,
            created_at: now,
            updated_at: now,
        }
    }
}

/// A transfer with its queueing and retry accounting.
#[derive(Debug)]
pub struct EnhancedTransfer {
    pub transfer: XdccTransfer,
    pub priority: TransferPriority,
    pub retry_count: u32,
    pub max_retries: u32,
    pub queue_position: Option<usize>,
}

impl Clone for EnhancedTransfer {
    fn clone(&self) -> (r: Self)
        ensures
            r == self,
    {
        EnhancedTransfer {
            transfer: self.transfer.clone(),
            priority: self.priority,
            retry_count: self.retry_count,
            max_retries: self.max_retries,
            queue_position: self.queue_position,
        }
    }
}

impl EnhancedTransfer {
    /// Wrap a record with default priority and the default retry budget.
    pub fn new(transfer: XdccTransfer) -> (r: Self)
        ensures
            r.transfer == transfer,
            r.priority is Normal,
            r.retry_count == 0,
            r.max_retries == 3,
            r.queue_position is None,
            r.wf(),
    {
        EnhancedTransfer {
            transfer,
            priority: TransferPriority::Normal,
            retry_count: 0,
            max_retries: 3,
            queue_position: None,
        }
    }

    /// The retry budget is not exhausted.
    pub fn can_retry(&self) -> (r: bool)
        ensures
            r == (self.retry_count < self.max_retries),
    {
        self.retry_count < self.max_retries
    }

    /// The retry budget is respected.
    pub open spec fn wf(&self) -> bool {
        self.retry_count <= self.max_retries
    }
}

/// Reliability weighed success rate, all in thousandths: the success
/// rate out of 1000 (500 before any attempt), weighted seven parts
/// success to three parts recency.
pub open spec fn spec_success_rate_pm(successful: int, total: int) -> int {
    if total == 0 {
        500
    } else {
        successful * 1000 / total
    }
}

/// The reliability score in thousandths.
pub open spec fn spec_reliability_pm(successful: int, total: int, recency_pm: int) -> int {
    (spec_success_rate_pm(successful, total) * 7 + recency_pm * 3) / 10
}

/// Recency decay in thousandths: full weight today, shrinking by the
/// daily factor 9672/10000 — a day's worth of exponential decay over a
/// thirty-day scale.
pub open spec fn spec_decay_pm(days: nat) -> int
    decreases days,
{
    if days == 0 {
        1000
    } else {
        spec_decay_pm((days - 1) as nat) * 9672 / 10000
    }
}

/// The decay always stays within its scale.
pub proof fn lemma_decay_bounds(days: nat)
    ensures
        0 <= spec_decay_pm(days) <= 1000,
    decreases days,
{
    if days > 0 {
        lemma_decay_bounds((days - 1) as nat);
        let prev = spec_decay_pm((days - 1) as nat);
        assert(prev * 9672 <= 1000 * 9672) by (nonlinear_arith)
            requires
                0 <= prev <= 1000,
        ;
        assert(prev * 9672 / 10000 <= 1000 * 9672 / 10000) by {
            vstd::arithmetic::div_mod::lemma_div_is_ordered(prev * 9672, 9672000int, 10000);
        }
        assert(prev * 9672 >= 0) by (nonlinear_arith)
            requires
                0 <= prev,
        ;
        assert(prev * 9672 / 10000 >= 0) by {
            vstd::arithmetic::div_mod::lemma_div_pos_is_pos(prev * 9672, 10000);
        }
    }
}

/// Once the decay reaches zero it stays there.
proof fn lemma_decay_zero(d: nat, days: nat)
    requires
        d <= days,
        spec_decay_pm(d) == 0,
    ensures
        spec_decay_pm(days) == 0,
    decreases days,
{
    if days > d {
        lemma_decay_zero(d, (days - 1) as nat);
    }
}

/// The recency decay after a number of days of silence.
pub fn recency_decay_pm(days: u64) -> (r: u32)
    ensures
        r == spec_decay_pm(days as nat),
{
    let mut r: u32 = 1000;
    let mut d: u64 = 0;
    while d < days && r > 0
        invariant
            d <= days,
            r == spec_decay_pm(d as nat),
            r <= 1000,
        decreases days - d,
    {
        proof {
            lemma_decay_bounds((d + 1) as nat);
        }
        r = ((r as u64 * 9672) / 10000) as u32;
        d = d + 1;
    }
    proof {
        if r == 0 {
            lemma_decay_zero(d as nat, days as nat);
        }
    }
    r
}

/// The reliability score stays within its scale for any history.
pub proof fn lemma_reliability_in_range(successful: int, total: int, recency_pm: int)
    requires
        0 <= successful <= total,
        0 <= recency_pm <= 1000,
    ensures
        0 <= spec_reliability_pm(successful, total, recency_pm) <= 1000,
{
    let sr = spec_success_rate_pm(successful, total);
    if total == 0 {
    } else {
        assert(successful * 1000 <= total * 1000) by (nonlinear_arith)
            requires
                0 <= successful <= total,
        ;
        assert(successful * 1000 / total <= total * 1000 / total) by {
            vstd::arithmetic::div_mod::lemma_div_is_ordered(
                successful * 1000,
                total * 1000,
                total,
            );
        }
        assert(total * 1000 / total == 1000) by {
            vstd::arithmetic::div_mod::lemma_div_by_multiple(1000, total);
        }
        assert(successful * 1000 >= 0) by (nonlinear_arith)
            requires
                0 <= successful,
        ;
        assert(successful * 1000 / total >= 0) by {
            vstd::arithmetic::div_mod::lemma_div_pos_is_pos(successful * 1000, total);
        }
    }
    assert(0 <= sr <= 1000);
    assert(sr * 7 <= 7000) by (nonlinear_arith)
        requires
            0 <= sr <= 1000,
    ;
    assert(sr * 7 >= 0) by (nonlinear_arith)
        requires
            0 <= sr,
    ;
    assert((sr * 7 + recency_pm * 3) / 10 <= 10000int / 10) by {
        vstd::arithmetic::div_mod::lemma_div_is_ordered(sr * 7 + recency_pm * 3, 10000int, 10);
    }
    assert((sr * 7 + recency_pm * 3) / 10 >= 0) by {
        vstd::arithmetic::div_mod::lemma_div_pos_is_pos(sr * 7 + recency_pm * 3, 10);
    }
}

/// With nothing but failures the score is exactly the recency share:
/// three tenths of the decay.
pub proof fn lemma_all_failures_score(total: int, recency_pm: int)
    requires
        total > 0,
    ensures
        spec_reliability_pm(0, total, recency_pm) == recency_pm * 3 / 10,
{
    assert(0int * 1000 / total == 0) by {
        vstd::arithmetic::div_mod::lemma_div_of0(total);
    }
}

/// Statistics for one bot identity (name and network); never deleted.
/// Counters and speeds are integers; `reliability_pm` is the score in
/// thousandths of the unit interval.
#[derive(Debug)]
pub struct BotStats {
    pub bot_name: String,
    pub network: String,
    pub total_downloads: u64,
    pub successful_downloads: u64,
    pub failed_downloads: u64,
    pub total_bytes: u64,
    pub average_speed: u64,
    pub last_seen: i64,
    pub reliability_pm: u32,
}

impl Clone for BotStats {
    fn clone(&self) -> (r: Self)
        ensures
            r == self,
    {
        BotStats {
            bot_name: self.bot_name.clone(),
            network: self.network.clone(),
            total_downloads: self.total_downloads,
            successful_downloads: self.successful_downloads,
            failed_downloads: self.failed_downloads,
            total_bytes: self.total_bytes,
            average_speed: self.average_speed,
            last_seen: self.last_seen,
            reliability_pm: self.reliability_pm,
        }
    }
}

impl BotStats {
    /// Every success or failure is counted, and the score is in scale.
    pub open spec fn wf(&self) -> bool {
        &&& self.successful_downloads + self.failed_downloads == self.total_downloads
        &&& self.reliability_pm <= 1000
    }

    /// A fresh entry with the neutral score.
    pub fn new(bot_name: String, network: String) -> (r: Self)
        ensures
            r.bot_name == bot_name,
            r.network == network,
            r.total_downloads == 0,
            r.successful_downloads == 0,
            r.failed_downloads == 0,
            r.total_bytes == 0,
            r.average_speed == 0,
            r.reliability_pm == 500,
            r.wf(),
    {
        BotStats {
            bot_name,
            network,
            total_downloads: 0,
            successful_downloads: 0,
            failed_downloads: 0,
            total_bytes: 0,
            average_speed: 0,
            last_seen: now_secs(),
            reliability_pm: 500,
        }
    }

    /// Count a completed download: bytes added (saturating), the speed
    /// folded in as a seven-to-three moving average, the bot just seen,
    /// and the score recomputed at full recency.
    pub fn record_success(&mut self, bytes: u64, speed: u64)
        requires
            old(self).wf(),
            old(self).total_downloads < u64::MAX,
        ensures
            final(self).wf(),
            final(self).bot_name == old(self).bot_name,
            final(self).network == old(self).network,
            final(self).total_downloads == old(self).total_downloads + 1,
            final(self).successful_downloads == old(self).successful_downloads + 1,
            final(self).failed_downloads == old(self).failed_downloads,
            final(self).total_bytes == if old(self).total_bytes + bytes <= u64::MAX {
                old(self).total_bytes + bytes
            } else {
                u64::MAX as int
            },
            final(self).average_speed == if old(self).average_speed == 0 {
                speed as int
            } else {
                (old(self).average_speed * 7 + speed * 3) / 10
            },
            final(self).reliability_pm == spec_reliability_pm(
                old(self).successful_downloads + 1,
                old(self).total_downloads + 1,
                1000,
            ),
    {
        self.total_downloads = self.total_downloads + 1;
        self.successful_downloads = self.successful_downloads + 1;
        self.total_bytes = if bytes <= u64::MAX - self.total_bytes {
            self.total_bytes + bytes
        } else {
            u64::MAX
        };
        if self.average_speed == 0 {
            self.average_speed = speed;
        } else {
            let mixed: u128 = (self.average_speed as u128 * 7 + speed as u128 * 3) / 10;
            proof {
                let a = self.average_speed as int;
                let b = speed as int;
                let m = if a >= b {
                    a
                } else {
                    b
                };
                assert(a * 7 + b * 3 <= m * 10) by (nonlinear_arith)
                    requires
                        0 <= a <= m,
                        0 <= b <= m,
                ;
                assert((a * 7 + b * 3) / 10 <= m * 10 / 10) by {
                    vstd::arithmetic::div_mod::lemma_div_is_ordered(a * 7 + b * 3, m * 10, 10);
                }
                assert(m * 10 / 10 == m) by {
                    vstd::arithmetic::div_mod::lemma_div_by_multiple(m, 10);
                }
            }
            self.average_speed = mixed as u64;
        }
        let now = now_secs();
        self.last_seen = now;
        self.update_reliability(now);
        proof {
            assert(spec_decay_pm(crate::spec_days_between(now as int, now as int) as nat)
                == 1000);
        }
    }

    /// Count a failed download: the bot just seen, the score recomputed
    /// at full recency.
    pub fn record_failure(&mut self)
        requires
            old(self).wf(),
            old(self).total_downloads < u64::MAX,
        ensures
            final(self).wf(),
            final(self).bot_name == old(self).bot_name,
            final(self).network == old(self).network,
            final(self).total_downloads == old(self).total_downloads + 1,
            final(self).successful_downloads == old(self).successful_downloads,
            final(self).failed_downloads == old(self).failed_downloads + 1,
            final(self).total_bytes == old(self).total_bytes,
            final(self).average_speed == old(self).average_speed,
            final(self).reliability_pm == spec_reliability_pm(
                old(self).successful_downloads as int,
                old(self).total_downloads + 1,
                1000,
            ),
    {
        self.total_downloads = self.total_downloads + 1;
        self.failed_downloads = self.failed_downloads + 1;
        let now = now_secs();
        self.last_seen = now;
        self.update_reliability(now);
        proof {
            assert(spec_decay_pm(crate::spec_days_between(now as int, now as int) as nat)
                == 1000);
        }
    }

    /// Recompute the score from the counters and the time since the bot
    /// was last seen: the success share weighted seven tenths, the
    /// recency decay three tenths.
    fn update_reliability(&mut self, now: i64)
        requires
            old(self).successful_downloads <= old(self).total_downloads,
        ensures
            *final(self) == (BotStats {
                reliability_pm: final(self).reliability_pm,
                ..*old(self)
            }),
            final(self).reliability_pm == spec_reliability_pm(
                old(self).successful_downloads as int,
                old(self).total_downloads as int,
                spec_decay_pm(
                    crate::spec_days_between(old(self).last_seen as int, now as int) as nat,
                ),
            ),
            final(self).reliability_pm <= 1000,
    {
        let days = crate::days_between(self.last_seen, now);
        let decay: u32 = recency_decay_pm(days);
        proof {
            lemma_decay_bounds(days as nat);
            lemma_reliability_in_range(
                self.successful_downloads as int,
                self.total_downloads as int,
                decay as int,
            );
        }
        if self.total_downloads == 0 {
            self.reliability_pm = ((500u64 * 7 + decay as u64 * 3) / 10) as u32;
        } else {
            let sr: u64 = ((self.successful_downloads as u128 * 1000
                / self.total_downloads as u128)) as u64;
            proof {
                let s = self.successful_downloads as int;
                let t = self.total_downloads as int;
                assert(s * 1000 <= t * 1000) by (nonlinear_arith)
                    requires
                        0 <= s <= t,
                ;
                assert(s * 1000 / t <= t * 1000 / t) by {
                    vstd::arithmetic::div_mod::lemma_div_is_ordered(s * 1000, t * 1000, t);
                }
                assert(t * 1000 / t == 1000) by {
                    vstd::arithmetic::div_mod::lemma_div_by_multiple(1000, t);
                }
                assert(s * 1000 / t >= 0) by {
                    vstd::arithmetic::div_mod::lemma_div_pos_is_pos(s * 1000, t);
                }
            }
            self.reliability_pm = ((sr * 7 + decay as u64 * 3) / 10) as u32;
        }
    }
}


/// Process-wide running aggregate over all finished transfers.
#[derive(Debug)]
pub struct DownloadAnalytics {
    pub total_downloads: u64,
    pub successful_downloads: u64,
    pub failed_downloads: u64,
    pub total_bytes_downloaded: u64,
    pub average_download_speed: u64,
    pub total_download_time_seconds: u64,
    pub most_active_network: Option<String>,
    pub most_reliable_bot: Option<String>,
}

impl Clone for DownloadAnalytics {
    fn clone(&self) -> (r: Self)
        ensures
            r == self,
    {
        DownloadAnalytics {
            total_downloads: self.total_downloads,
            successful_downloads: self.successful_downloads,
            failed_downloads: self.failed_downloads,
            total_bytes_downloaded: self.total_bytes_downloaded,
            average_download_speed: self.average_download_speed,
            total_download_time_seconds: self.total_download_time_seconds,
            most_active_network: clone_opt_string(&self.most_active_network),
            most_reliable_bot: clone_opt_string(&self.most_reliable_bot),
        }
    }
}

impl Default for DownloadAnalytics {
    /// The empty aggregate.
    fn default() -> (r: Self)
        ensures
            r.total_downloads == 0,
            r.successful_downloads == 0,
            r.failed_downloads == 0,
            r.total_bytes_downloaded == 0,
            r.average_download_speed == 0,
            r.total_download_time_seconds == 0,
            r.most_active_network is None,
            r.most_reliable_bot is None,
    {
        DownloadAnalytics {
            total_downloads: 0,
            successful_downloads: 0,
            failed_downloads: 0,
            total_bytes_downloaded: 0,
            average_download_speed: 0,
            total_download_time_seconds: 0,
            most_active_network: None,
            most_reliable_bot: None,
        }
    }
}

/// A cancellation handle keyed by the transfer it can stop.
pub struct TokenEntry {
    pub id: String,
    pub token: CancellationToken,
}

/// A transfer with the given identifier exists in the sequence.
pub open spec fn has_tid(s: Seq<EnhancedTransfer>, id: Seq<char>) -> bool {
    exists|i: int| 0 <= i < s.len() && s[i].transfer.id@ == id
}

/// Identifiers are pairwise distinct.
pub open spec fn unique_tids(s: Seq<EnhancedTransfer>) -> bool {
    forall|i: int, j: int|
        0 <= i < j < s.len() ==> s[i].transfer.id@ != s[j].transfer.id@
}

/// A token for the given identifier exists.
pub open spec fn has_tok(s: Seq<TokenEntry>, id: Seq<char>) -> bool {
    exists|i: int| 0 <= i < s.len() && s[i].id@ == id
}

/// Token identifiers are pairwise distinct.
pub open spec fn unique_toks(s: Seq<TokenEntry>) -> bool {
    forall|i: int, j: int| 0 <= i < j < s.len() ==> s[i].id@ != s[j].id@
}

/// The queue holds the given identifier.
pub open spec fn has_qid(q: Seq<Seq<char>>, id: Seq<char>) -> bool {
    exists|i: int| 0 <= i < q.len() && q[i] == id
}

/// Queue entries are pairwise distinct.
pub open spec fn unique_qids(q: Seq<Seq<char>>) -> bool {
    forall|i: int, j: int| 0 <= i < j < q.len() ==> q[i] != q[j]
}

/// A statistics entry for the given bot identity exists.
pub open spec fn has_bot(s: Seq<BotStats>, bot: Seq<char>, network: Seq<char>) -> bool {
    exists|i: int| 0 <= i < s.len() && s[i].bot_name@ == bot && s[i].network@ == network
}

/// Bot identities are pairwise distinct.
pub open spec fn unique_bots(s: Seq<BotStats>) -> bool {
    forall|i: int, j: int|
        0 <= i < j < s.len() ==> !(s[i].bot_name@ == s[j].bot_name@ && s[i].network@
            == s[j].network@)
}

/// How many transfers currently hold the given status.
pub open spec fn count_status(s: Seq<EnhancedTransfer>, st: TransferStatus) -> int
    decreases s.len(),
{
    if s.len() == 0 {
        0
    } else {
        count_status(s.drop_last(), st) + if s.last().transfer.status == st {
            1int
        } else {
            0
        }
    }
}

/// A history append that evicts the oldest entry beyond the capacity.
pub open spec fn push_bounded(h: Seq<XdccTransfer>, t: XdccTransfer, cap: int) -> Seq<
    XdccTransfer,
> {
    if h.len() < cap {
        h.push(t)
    } else {
        h.push(t).subrange(h.len() + 1 - cap, h.len() as int + 1)
    }
}

/// The saturating increment used by the analytics counters.
pub open spec fn inc_sat(x: u64) -> int {
    if x < u64::MAX {
        x + 1
    } else {
        x as int
    }
}

/// The saturating sum used by the analytics byte counter.
pub open spec fn add_sat(x: u64, y: u64) -> int {
    if x + y <= u64::MAX {
        x + y
    } else {
        u64::MAX as int
    }
}

/// The orchestrator: owns the active transfers, their cancellation
/// handles, the pending queue, bot statistics, bounded history and
/// analytics. All mutation goes through its methods.
pub struct EnhancedTransferManager {
    transfers: Vec<EnhancedTransfer>,
    tokens: Vec<TokenEntry>,
    queue: Vec<String>,
    bot_stats: Vec<BotStats>,
    history: Vec<XdccTransfer>,
    analytics: DownloadAnalytics,
    max_history: usize,
    download_dir: String,
}

impl EnhancedTransferManager {
    /// The active transfers, in insertion order.
    pub closed spec fn transfers_view(&self) -> Seq<EnhancedTransfer> {
        self.transfers@
    }

    /// The cancellation handles, keyed by transfer identifier.
    pub closed spec fn tokens_view(&self) -> Seq<TokenEntry> {
        self.tokens@
    }

    /// The pending queue, as identifiers.
    pub closed spec fn queue_view(&self) -> Seq<Seq<char>> {
        self.queue@.map_values(|s: String| s@)
    }

    /// The bot statistics entries.
    pub closed spec fn stats_view(&self) -> Seq<BotStats> {
        self.bot_stats@
    }

    /// The bounded history, oldest first.
    pub closed spec fn history_view(&self) -> Seq<XdccTransfer> {
        self.history@
    }

    /// The running analytics.
    pub closed spec fn analytics_view(&self) -> DownloadAnalytics {
        self.analytics
    }

    /// The history capacity.
    pub closed spec fn hist_cap(&self) -> int {
        self.max_history as int
    }

    /// The download directory the manager was built over.
    pub closed spec fn dir_view(&self) -> Seq<char> {
        self.download_dir@
    }

    /// Identifiers unique everywhere, every retry budget respected,
    /// every statistics entry coherent, and the history bounded.
    pub open spec fn wf(&self) -> bool {
        &&& unique_tids(self.transfers_view())
        &&& unique_toks(self.tokens_view())
        &&& unique_qids(self.queue_view())
        &&& unique_bots(self.stats_view())
        &&& forall|i: int|
            0 <= i < self.transfers_view().len() ==> (#[trigger] self.transfers_view()[i]).wf()
        &&& forall|i: int|
            0 <= i < self.stats_view().len() ==> (#[trigger] self.stats_view()[i]).wf()
        &&& self.history_view().len() <= self.hist_cap()
        &&& self.hist_cap() == 50
    }

    /// A fresh, empty manager over the given download directory.
    pub fn new(download_dir: String) -> (r: Self)
        ensures
            r.wf(),
            r.transfers_view().len() == 0,
            r.tokens_view().len() == 0,
            r.queue_view().len() == 0,
            r.stats_view().len() == 0,
            r.history_view().len() == 0,
            r.analytics_view().total_downloads == 0,
            r.analytics_view().successful_downloads == 0,
            r.analytics_view().failed_downloads == 0,
            r.dir_view() == download_dir@,
    {
        let r = EnhancedTransferManager {
            transfers: Vec::new(),
            tokens: Vec::new(),
            queue: Vec::new(),
            bot_stats: Vec::new(),
            history: Vec::new(),
            analytics: DownloadAnalytics::default(),
            max_history: 50,
            download_dir,
        };
        proof {
            assert(r.queue_view() =~= Seq::<Seq<char>>::empty());
        }
        r
    }

    /// Index of the active transfer with this identifier.
    fn find_transfer_idx(&self, id: &str) -> (r: Option<usize>)
        ensures
            match r {
                Some(i) => i < self.transfers_view().len()
                    && self.transfers_view()[i as int].transfer.id@ == id@,
                None => !has_tid(self.transfers_view(), id@),
            },
    {
        let n: usize = self.transfers.len();
        let mut i: usize = 0;
        while i < n
            invariant
                i <= n,
                n == self.transfers@.len(),
                forall|j: int| 0 <= j < i ==> self.transfers@[j].transfer.id@ != id@,
            decreases n - i,
        {
            if crate::strings::str_eq(self.transfers[i].transfer.id.as_str(), id) {
                return Some(i);
            }
            i = i + 1;
        }
        None
    }

    /// Index of the token entry with this identifier.
    fn find_token_idx(&self, id: &str) -> (r: Option<usize>)
        ensures
            match r {
                Some(i) => i < self.tokens_view().len() && self.tokens_view()[i as int].id@ == id@,
                None => !has_tok(self.tokens_view(), id@),
            },
    {
        let n: usize = self.tokens.len();
        let mut i: usize = 0;
        while i < n
            invariant
                i <= n,
                n == self.tokens@.len(),
                forall|j: int| 0 <= j < i ==> self.tokens@[j].id@ != id@,
            decreases n - i,
        {
            if crate::strings::str_eq(self.tokens[i].id.as_str(), id) {
                return Some(i);
            }
            i = i + 1;
        }
        None
    }

    /// Index of the queue entry with this identifier.
    fn find_queue_idx(&self, id: &str) -> (r: Option<usize>)
        ensures
            match r {
                Some(i) => i < self.queue_view().len() && self.queue_view()[i as int] == id@,
                None => !has_qid(self.queue_view(), id@),
            },
    {
        let n: usize = self.queue.len();
        let mut i: usize = 0;
        while i < n
            invariant
                i <= n,
                n == self.queue@.len(),
                forall|j: int| 0 <= j < i ==> self.queue_view()[j] != id@,
            decreases n - i,
        {
            if crate::strings::str_eq(self.queue[i].as_str(), id) {
                proof {
                    assert(self.queue_view()[i as int] == self.queue@[i as int]@);
                }
                return Some(i);
            }
            proof {
                assert(self.queue_view()[i as int] == self.queue@[i as int]@);
            }
            i = i + 1;
        }
        None
    }

    /// Index of the statistics entry for this bot identity.
    fn find_stats_idx(&self, bot: &str, network: &str) -> (r: Option<usize>)
        ensures
            match r {
                Some(i) => i < self.stats_view().len() && self.stats_view()[i as int].bot_name@
                    == bot@ && self.stats_view()[i as int].network@ == network@,
                None => !has_bot(self.stats_view(), bot@, network@),
            },
    {
        let n: usize = self.bot_stats.len();
        let mut i: usize = 0;
        while i < n
            invariant
                i <= n,
                n == self.bot_stats@.len(),
                forall|j: int|
                    0 <= j < i ==> !(self.bot_stats@[j].bot_name@ == bot@
                        && self.bot_stats@[j].network@ == network@),
            decreases n - i,
        {
            if crate::strings::str_eq(self.bot_stats[i].bot_name.as_str(), bot)
                && crate::strings::str_eq(self.bot_stats[i].network.as_str(), network) {
                return Some(i);
            }
            i = i + 1;
        }
        None
    }

    /// How many transfers are waiting in `Pending` state.
    pub fn queue_size(&self) -> (r: usize)
        ensures
            r == count_status(self.transfers_view(), TransferStatus::Pending),
    {
        let n: usize = self.transfers.len();
        let mut count: usize = 0;
        let mut i: usize = 0;
        while i < n
            invariant
                i <= n,
                n == self.transfers@.len(),
                count == count_status(
                    self.transfers@.subrange(0, i as int),
                    TransferStatus::Pending,
                ),
                count <= i,
            decreases n - i,
        {
            proof {
                let pre = self.transfers@.subrange(0, i + 1);
                assert(pre.drop_last() =~= self.transfers@.subrange(0, i as int));
                assert(pre.last() == self.transfers@[i as int]);
            }
            if matches!(self.transfers[i].transfer.status, TransferStatus::Pending) {
                count = count + 1;
            }
            i = i + 1;
        }
        proof {
            assert(self.transfers@.subrange(0, n as int) =~= self.transfers@);
        }
        count
    }

    /// A copy of the transfer with this identifier, if it is active.
    pub fn get_transfer(&self, id: &str) -> (r: Option<EnhancedTransfer>)
        ensures
            match r {
                Some(t) => exists|i: int|
                    0 <= i < self.transfers_view().len() && #[trigger] self.transfers_view()[i]
                        == t && t.transfer.id@ == id@,
                None => !has_tid(self.transfers_view(), id@),
            },
    {
        match self.find_transfer_idx(id) {
            Some(i) => Some(self.transfers[i].clone()),
            None => None,
        }
    }

    /// A copy of the running analytics.
    pub fn get_analytics(&self) -> (r: DownloadAnalytics)
        ensures
            r == self.analytics_view(),
    {
        self.analytics.clone()
    }

    /// The newest history entries, newest first, at most `limit` of them.
    pub fn get_history(&self, limit: usize) -> (r: Vec<XdccTransfer>)
        ensures
            r@.len() == vstd::math::min(limit as int, self.history_view().len() as int),
            forall|i: int|
                0 <= i < r@.len() ==> r@[i] == self.history_view()[self.history_view().len() - 1
                    - i],
    {
        let n: usize = self.history.len();
        let mut r: Vec<XdccTransfer> = Vec::new();
        let mut i: usize = 0;
        while i < n && i < limit
            invariant
                i <= n,
                n == self.history@.len(),
                i <= limit,
                r@.len() == i,
                forall|j: int| 0 <= j < i ==> r@[j] == self.history@[n - 1 - j],
            decreases n - i,
        {
            r.push(self.history[n - 1 - i].clone());
            i = i + 1;
        }
        r
    }
}


/// Equal in every transfer field but status and update time.
pub open spec fn same_mod_status(a: XdccTransfer, b: XdccTransfer) -> bool {
    &&& a.id == b.id
    &&& a.url == b.url
    &&& a.filename == b.filename
    &&& a.size == b.size
    &&& a.downloaded == b.downloaded
    &&& a.speed == b.speed
    &&& a.progress == b.progress
    &&& a.error == b.error
    &&& a.created_at == b.created_at
}

/// Equal in every transfer field but progress figures and update time.
pub open spec fn same_mod_progress(a: XdccTransfer, b: XdccTransfer) -> bool {
    &&& a.id == b.id
    &&& a.url == b.url
    &&& a.status == b.status
    &&& a.filename == b.filename
    &&& a.size == b.size
    &&& a.error == b.error
    &&& a.created_at == b.created_at
}

/// Equal in every transfer field but the file information and update time.
pub open spec fn same_mod_fileinfo(a: XdccTransfer, b: XdccTransfer) -> bool {
    &&& a.id == b.id
    &&& a.url == b.url
    &&& a.status == b.status
    &&& a.downloaded == b.downloaded
    &&& a.speed == b.speed
    &&& a.progress == b.progress
    &&& a.error == b.error
    &&& a.created_at == b.created_at
}

/// Equal in the queueing and retry accounting.
pub open spec fn same_enh_wrap(a: EnhancedTransfer, b: EnhancedTransfer) -> bool {
    &&& a.priority == b.priority
    &&& a.retry_count == b.retry_count
    &&& a.max_retries == b.max_retries
    &&& a.queue_position == b.queue_position
}

/// Every queued transfer's stored position names its queue slot,
/// one-based.
pub open spec fn positions_ok(ts: Seq<EnhancedTransfer>, q: Seq<Seq<char>>) -> bool {
    forall|i: int, j: int|
        #![trigger ts[i], q[j]]
        0 <= i < ts.len() && 0 <= j < q.len() && q[j] == ts[i].transfer.id@
            ==> ts[i].queue_position == Some((j + 1) as usize)
}

/// The whole-percent progress figure, capped at one hundred.
pub open spec fn spec_progress_pct(downloaded: u64, size: u64) -> int {
    if size == 0 {
        0
    } else if downloaded > size {
        100
    } else {
        downloaded as int * 100 / size as int
    }
}

impl EnhancedTransferManager {
    /// Put `id` at the back of the queue (moving it there if already
    /// queued) and restamp every queued transfer's position.
    fn add_to_queue(&mut self, id: String)
        requires
            old(self).wf(),
        ensures
            final(self).wf(),
            final(self).transfers_view().len() == old(self).transfers_view().len(),
            (if has_qid(old(self).queue_view(), id@) {
                exists|i: int|
                    0 <= i < old(self).queue_view().len() && old(self).queue_view()[i] == id@
                        && final(self).queue_view() == old(self).queue_view().remove(i).push(id@)
            } else {
                final(self).queue_view() == old(self).queue_view().push(id@)
            }),
            positions_ok(final(self).transfers_view(), final(self).queue_view()),
            forall|i: int|
                0 <= i < old(self).transfers_view().len()
                    ==> (#[trigger] final(self).transfers_view()[i]).transfer == old(self).transfers_view()[i].transfer && final(self).transfers_view()[i].priority == old(self).transfers_view()[i].priority && final(self).transfers_view()[i].retry_count
                    == old(self).transfers_view()[i].retry_count && final(self).transfers_view()[i].max_retries == old(self).transfers_view()[i].max_retries,
            final(self).tokens_view() == old(self).tokens_view(),
            final(self).stats_view() == old(self).stats_view(),
            final(self).history_view() == old(self).history_view(),
            final(self).analytics_view() == old(self).analytics_view(),
            final(self).hist_cap() == old(self).hist_cap(),
            final(self).dir_view() == old(self).dir_view(),
    {
        match self.find_queue_idx(id.as_str()) {
            Some(i) => {
                self.queue.remove(i);
                proof {
                    assert(self.queue_view() =~= old(self).queue_view().remove(i as int));
                }
            },
            None => {},
        }
        let ghost mid_q = self.queue_view();
        self.queue.push(id);
        proof {
            assert(self.queue_view() =~= mid_q.push(id@));
            assert(unique_qids(self.queue_view())) by {
                assert(forall|j: int|
                    0 <= j < mid_q.len() ==> mid_q[j] != id@);
            }
        }
        // Restamp every queued transfer's position.
        let qn: usize = self.queue.len();
        let ghost ts0 = self.transfers_view();
        let ghost qv = self.queue_view();
        let mut k: usize = 0;
        while k < qn
            invariant
                k <= qn,
                qn == self.queue@.len(),
                self.queue_view() == qv,
                unique_qids(qv),
                unique_tids(ts0),
                self.transfers_view().len() == ts0.len(),
                forall|i: int|
                    0 <= i < ts0.len() ==> (#[trigger] self.transfers_view()[i]).transfer
                        == ts0[i].transfer && self.transfers_view()[i].priority == ts0[i].priority
                        && self.transfers_view()[i].retry_count == ts0[i].retry_count
                        && self.transfers_view()[i].max_retries == ts0[i].max_retries,
                forall|i: int, j: int|
                    #![trigger self.transfers_view()[i], qv[j]]
                    0 <= i < self.transfers_view().len() && 0 <= j < k && qv[j]
                        == self.transfers_view()[i].transfer.id@
                        ==> self.transfers_view()[i].queue_position == Some((j + 1) as usize),
                forall|i: int|
                    0 <= i < ts0.len() && (forall|j: int|
                        0 <= j < k ==> qv[j] != ts0[i].transfer.id@)
                        ==> (#[trigger] self.transfers_view()[i]).queue_position
                        == ts0[i].queue_position,
                self.tokens_view() == old(self).tokens_view(),
                self.stats_view() == old(self).stats_view(),
                self.history_view() == old(self).history_view(),
                self.analytics_view() == old(self).analytics_view(),
                self.hist_cap() == old(self).hist_cap(),
                self.dir_view() == old(self).dir_view(),
            decreases qn - k,
        {
            let qid = self.queue[k].clone();
            proof {
                assert(qid@ == qv[k as int]);
            }
            match self.find_transfer_idx(qid.as_str()) {
                Some(m) => {
                    let mut t = self.transfers[m].clone();
                    t.queue_position = Some(k + 1);
                    let ghost pre = self.transfers_view();
                    self.transfers.set(m, t);
                    proof {
                        assert(self.transfers_view() =~= pre.update(
                            m as int,
                            self.transfers_view()[m as int],
                        ));
                        assert forall|i: int, j: int|
                            #![trigger self.transfers_view()[i], qv[j]]
                            0 <= i < self.transfers_view().len() && 0 <= j < k + 1 && qv[j]
                                == self.transfers_view()[i].transfer.id@ implies self.transfers_view()[i].queue_position
                            == Some((j + 1) as usize) by {
                            if i != m as int {
                                assert(self.transfers_view()[i] == pre[i]);
                                if j < k {
                                } else {
                                    assert(qv[j] == qv[k as int]);
                                    assert(ts0[i].transfer.id@ == ts0[m as int].transfer.id@);
                                    assert(false);
                                }
                            } else {
                                if j < k {
                                    assert(qv[j] != qv[k as int]);
                                    assert(false);
                                } else {
                                }
                            }
                        }
                    }
                },
                None => {},
            }
            k = k + 1;
        }
        proof {
            assert(unique_tids(self.transfers_view())) by {
                assert(forall|i: int|
                    0 <= i < ts0.len() ==> (#[trigger] self.transfers_view()[i]).transfer.id@
                        == ts0[i].transfer.id@);
            }
            assert(forall|i: int|
                0 <= i < self.transfers_view().len() ==> (
                #[trigger] self.transfers_view()[i]).wf());
        }
    }

    /// Allocate a fresh identifier, register a `Pending` transfer for the
    /// target with the given priority, hand out its cancellation handle
    /// and put it at the back of the queue.
    pub fn create_transfer(&mut self, url: XdccUrl, priority: TransferPriority) -> (r: (
        String,
        CancellationToken,
    ))
        requires
            old(self).wf(),
        ensures
            final(self).wf(),
            r.0@.len() == 36,
            // The new record sits at the back of the active set.
            final(self).transfers_view().len() > 0,
            ({
                let t = final(self).transfers_view().last();
                &&& t.transfer.id@ == r.0@
                &&& t.transfer.url == url
                &&& t.transfer.status is Pending
                &&& t.transfer.downloaded == 0
                &&& t.transfer.speed == 0
                &&& t.transfer.progress == 0
                &&& t.transfer.filename is None
                &&& t.transfer.size is None
                &&& t.transfer.error is None
                &&& t.priority == priority
                &&& t.retry_count == 0
                &&& t.max_retries == 3
            }),
            // Any record that had the same identifier is replaced; the
            // rest keep their transfers and accounting.
            (if !has_tid(old(self).transfers_view(), r.0@) {
                final(self).transfers_view().len() == old(self).transfers_view().len() + 1
                    && (forall|i: int|
                    0 <= i < old(self).transfers_view().len()
                        ==> (#[trigger] final(self).transfers_view()[i]).transfer == old(self).transfers_view()[i].transfer)
            } else {
                final(self).transfers_view().len() == old(self).transfers_view().len()
            }),
            // The identifier went to the back of the queue and every
            // queued transfer's position was restamped.
            final(self).queue_view().len() > 0,
            final(self).queue_view().last() == r.0@,
            positions_ok(final(self).transfers_view(), final(self).queue_view()),
            // A cancellation handle is registered for it.
            has_tok(final(self).tokens_view(), r.0@),
            final(self).stats_view() == old(self).stats_view(),
            final(self).history_view() == old(self).history_view(),
            final(self).analytics_view() == old(self).analytics_view(),
    {
        let id = fresh_id();
        let transfer = XdccTransfer::new(id.clone(), url);
        let mut enhanced = EnhancedTransfer::new(transfer);
        enhanced.priority = priority;

        match self.find_transfer_idx(id.as_str()) {
            Some(i) => {
                self.transfers.remove(i);
            },
            None => {},
        }
        let ghost mid = self.transfers_view();
        proof {
            assert(!has_tid(mid, id@)) by {
                if has_tid(mid, id@) {
                    let w = choose|w: int| 0 <= w < mid.len() && mid[w].transfer.id@ == id@;
                    assert(w < old(self).transfers_view().len());
                }
            }
        }
        self.transfers.push(enhanced);

        let token = token_new();
        match self.find_token_idx(id.as_str()) {
            Some(i) => {
                self.tokens.remove(i);
            },
            None => {},
        }
        let ghost midtok = self.tokens_view();
        proof {
            assert(!has_tok(midtok, id@)) by {
                if has_tok(midtok, id@) {
                    let w = choose|w: int| 0 <= w < midtok.len() && midtok[w].id@ == id@;
                }
            }
        }
        self.tokens.push(TokenEntry { id: id.clone(), token: token_clone(&token) });
        proof {
            assert(unique_toks(self.tokens_view()));
            assert(unique_tids(self.transfers_view()));
            assert(has_tok(self.tokens_view(), id@)) by {
                assert(self.tokens_view().last().id@ == id@);
            }
        }

        self.add_to_queue(id.clone());
        proof {
            assert(has_tok(self.tokens_view(), id@));
            assert(final(self).queue_view().last() == id@) by {
                if has_qid(midtok.map_values(|e: TokenEntry| e.id@), id@) {
                }
            }
        }
        (id, token)
    }
}


impl EnhancedTransferManager {
    /// Record the announced filename and size of an active transfer.
    pub fn set_file_info(&mut self, id: &str, filename: String, size: u64)
        requires
            old(self).wf(),
        ensures
            final(self).wf(),
            !has_tid(old(self).transfers_view(), id@) ==> *final(self) == *old(self),
            has_tid(old(self).transfers_view(), id@) ==> exists|i: int|
                0 <= i < old(self).transfers_view().len()
                    && #[trigger] old(self).transfers_view()[i].transfer.id@ == id@ && final(self).transfers_view() == old(self).transfers_view().update(
                    i,
                    final(self).transfers_view()[i],
                ) && same_mod_fileinfo(
                    final(self).transfers_view()[i].transfer,
                    old(self).transfers_view()[i].transfer,
                ) && same_enh_wrap(
                    final(self).transfers_view()[i],
                    old(self).transfers_view()[i],
                ) && final(self).transfers_view()[i].transfer.filename == Some(filename) && final(self).transfers_view()[i].transfer.size == Some(size),
            final(self).tokens_view() == old(self).tokens_view(),
            final(self).queue_view() == old(self).queue_view(),
            final(self).stats_view() == old(self).stats_view(),
            final(self).history_view() == old(self).history_view(),
            final(self).analytics_view() == old(self).analytics_view(),
    {
        match self.find_transfer_idx(id) {
            Some(i) => {
                let mut t = self.transfers[i].clone();
                t.transfer.filename = Some(filename);
                t.transfer.size = Some(size);
                t.transfer.updated_at = now_secs();
                let ghost pre = self.transfers_view();
                self.transfers.set(i, t);
                proof {
                    assert(final(self).transfers_view() =~= pre.update(
                        i as int,
                        final(self).transfers_view()[i as int],
                    ));
                    assert(unique_tids(self.transfers_view()));
                }
            },
            None => {},
        }
    }

    /// Record byte and speed progress of an active transfer; the percent
    /// figure follows from the announced size.
    pub fn update_progress(&mut self, id: &str, downloaded: u64, speed: u64)
        requires
            old(self).wf(),
        ensures
            final(self).wf(),
            !has_tid(old(self).transfers_view(), id@) ==> *final(self) == *old(self),
            has_tid(old(self).transfers_view(), id@) ==> exists|i: int|
                0 <= i < old(self).transfers_view().len()
                    && #[trigger] old(self).transfers_view()[i].transfer.id@ == id@ && final(self).transfers_view() == old(self).transfers_view().update(
                    i,
                    final(self).transfers_view()[i],
                ) && same_mod_progress(
                    final(self).transfers_view()[i].transfer,
                    old(self).transfers_view()[i].transfer,
                ) && same_enh_wrap(
                    final(self).transfers_view()[i],
                    old(self).transfers_view()[i],
                ) && final(self).transfers_view()[i].transfer.downloaded == downloaded && final(self).transfers_view()[i].transfer.speed == speed && final(self).transfers_view()[i].transfer.progress == (match old(self).transfers_view()[i].transfer.size {
                    Some(sz) => if sz > 0 {
                        spec_progress_pct(downloaded, sz) as u64
                    } else {
                        old(self).transfers_view()[i].transfer.progress
                    },
                    None => old(self).transfers_view()[i].transfer.progress,
                }),
            final(self).tokens_view() == old(self).tokens_view(),
            final(self).queue_view() == old(self).queue_view(),
            final(self).stats_view() == old(self).stats_view(),
            final(self).history_view() == old(self).history_view(),
            final(self).analytics_view() == old(self).analytics_view(),
    {
        match self.find_transfer_idx(id) {
            Some(i) => {
                let mut t = self.transfers[i].clone();
                t.transfer.downloaded = downloaded;
                t.transfer.speed = speed;
                match t.transfer.size {
                    Some(sz) => {
                        if sz > 0 {
                            let pct: u64 = if downloaded > sz {
                                100
                            } else {
                                let p = ((downloaded as u128 * 100) / sz as u128) as u64;
                                proof {
                                    assert(downloaded as int * 100 / sz as int <= 100) by {
                                        vstd::arithmetic::div_mod::lemma_div_is_ordered(
                                            downloaded as int * 100,
                                            sz as int * 100,
                                            sz as int,
                                        );
                                        vstd::arithmetic::div_mod::lemma_div_by_multiple(
                                            100,
                                            sz as int,
                                        );
                                    }
                                }
                                p
                            };
                            t.transfer.progress = pct;
                        }
                    },
                    None => {},
                }
                t.transfer.updated_at = now_secs();
                let ghost pre = self.transfers_view();
                self.transfers.set(i, t);
                proof {
                    assert(final(self).transfers_view() =~= pre.update(
                        i as int,
                        final(self).transfers_view()[i as int],
                    ));
                    assert(unique_tids(self.transfers_view()));
                }
            },
            None => {},
        }
    }

    /// Point the analytics at a bot identity with the most attempts.
    fn refresh_most_active(&mut self)
        requires
            old(self).wf(),
        ensures
            final(self).wf(),
            final(self).transfers_view() == old(self).transfers_view(),
            final(self).tokens_view() == old(self).tokens_view(),
            final(self).queue_view() == old(self).queue_view(),
            final(self).stats_view() == old(self).stats_view(),
            final(self).history_view() == old(self).history_view(),
            final(self).hist_cap() == old(self).hist_cap(),
            final(self).dir_view() == old(self).dir_view(),
            ({
                let a = final(self).analytics_view();
                let b = old(self).analytics_view();
                &&& a.total_downloads == b.total_downloads
                &&& a.successful_downloads == b.successful_downloads
                &&& a.failed_downloads == b.failed_downloads
                &&& a.total_bytes_downloaded == b.total_bytes_downloaded
                &&& a.average_download_speed == b.average_download_speed
                &&& a.total_download_time_seconds == b.total_download_time_seconds
            }),
            old(self).stats_view().len() == 0 ==> final(self).analytics_view().most_active_network
                == old(self).analytics_view().most_active_network && final(self).analytics_view().most_reliable_bot == old(self).analytics_view().most_reliable_bot,
            old(self).stats_view().len() > 0 ==> exists|k: int|
                0 <= k < old(self).stats_view().len() && (forall|j: int|
                    0 <= j < old(self).stats_view().len()
                        ==> (#[trigger] old(self).stats_view()[j]).total_downloads <= old(self).stats_view()[k].total_downloads) && final(self).analytics_view().most_active_network == Some(
                    #[trigger] old(self).stats_view()[k].network,
                ) && final(self).analytics_view().most_reliable_bot == Some(
                    old(self).stats_view()[k].bot_name,
                ),
    {
        let n: usize = self.bot_stats.len();
        if n == 0 {
            return ;
        }
        let mut best: usize = 0;
        let mut i: usize = 1;
        while i < n
            invariant
                best < i <= n,
                n == self.bot_stats@.len(),
                forall|j: int|
                    0 <= j < i ==> (#[trigger] self.bot_stats@[j]).total_downloads
                        <= self.bot_stats@[best as int].total_downloads,
            decreases n - i,
        {
            if self.bot_stats[i].total_downloads >= self.bot_stats[best].total_downloads {
                best = i;
            }
            i = i + 1;
        }
        self.analytics.most_active_network = Some(self.bot_stats[best].network.clone());
        self.analytics.most_reliable_bot = Some(self.bot_stats[best].bot_name.clone());
    }

    /// Fold a finished transfer into the analytics: counters always, and
    /// on success the bytes and the nine-to-one speed moving average;
    /// then repoint the most-active identity.
    fn update_analytics(&mut self, transfer: &XdccTransfer, success: bool)
        requires
            old(self).wf(),
        ensures
            final(self).wf(),
            final(self).transfers_view() == old(self).transfers_view(),
            final(self).tokens_view() == old(self).tokens_view(),
            final(self).queue_view() == old(self).queue_view(),
            final(self).stats_view() == old(self).stats_view(),
            final(self).history_view() == old(self).history_view(),
            final(self).hist_cap() == old(self).hist_cap(),
            final(self).dir_view() == old(self).dir_view(),
            ({
                let a = final(self).analytics_view();
                let b = old(self).analytics_view();
                &&& a.total_downloads == inc_sat(b.total_downloads)
                &&& (if success {
                    &&& a.successful_downloads == inc_sat(b.successful_downloads)
                    &&& a.failed_downloads == b.failed_downloads
                    &&& a.total_bytes_downloaded == (match transfer.size {
                        Some(sz) => add_sat(b.total_bytes_downloaded, sz),
                        None => b.total_bytes_downloaded as int,
                    })
                    &&& a.average_download_speed == (if b.average_download_speed == 0 {
                        transfer.speed as int
                    } else {
                        (b.average_download_speed * 9 + transfer.speed) / 10
                    })
                } else {
                    &&& a.successful_downloads == b.successful_downloads
                    &&& a.failed_downloads == inc_sat(b.failed_downloads)
                    &&& a.total_bytes_downloaded == b.total_bytes_downloaded
                    &&& a.average_download_speed == b.average_download_speed
                })
                &&& a.total_download_time_seconds == b.total_download_time_seconds
            }),
            old(self).stats_view().len() == 0 ==> final(self).analytics_view().most_active_network
                == old(self).analytics_view().most_active_network && final(self).analytics_view().most_reliable_bot == old(self).analytics_view().most_reliable_bot,
            old(self).stats_view().len() > 0 ==> exists|k: int|
                0 <= k < old(self).stats_view().len() && (forall|j: int|
                    0 <= j < old(self).stats_view().len()
                        ==> (#[trigger] old(self).stats_view()[j]).total_downloads <= old(self).stats_view()[k].total_downloads) && final(self).analytics_view().most_active_network == Some(
                    #[trigger] old(self).stats_view()[k].network,
                ) && final(self).analytics_view().most_reliable_bot == Some(
                    old(self).stats_view()[k].bot_name,
                ),
    {
        if self.analytics.total_downloads < u64::MAX {
            self.analytics.total_downloads = self.analytics.total_downloads + 1;
        }
        if success {
            if self.analytics.successful_downloads < u64::MAX {
                self.analytics.successful_downloads = self.analytics.successful_downloads + 1;
            }
            match transfer.size {
                Some(sz) => {
                    self.analytics.total_bytes_downloaded = if sz <= u64::MAX
                        - self.analytics.total_bytes_downloaded {
                        self.analytics.total_bytes_downloaded + sz
                    } else {
                        u64::MAX
                    };
                },
                None => {},
            }
            if self.analytics.average_download_speed == 0 {
                self.analytics.average_download_speed = transfer.speed;
            } else {
                let mixed: u128 = (self.analytics.average_download_speed as u128 * 9
                    + transfer.speed as u128) / 10;
                proof {
                    let a = self.analytics.average_download_speed as int;
                    let b = transfer.speed as int;
                    let m = if a >= b {
                        a
                    } else {
                        b
                    };
                    assert(a * 9 + b <= m * 10) by (nonlinear_arith)
                        requires
                            0 <= a <= m,
                            0 <= b <= m,
                    ;
                    assert((a * 9 + b) / 10 <= m * 10 / 10) by {
                        vstd::arithmetic::div_mod::lemma_div_is_ordered(a * 9 + b, m * 10, 10);
                    }
                    assert(m * 10 / 10 == m) by {
                        vstd::arithmetic::div_mod::lemma_div_by_multiple(m, 10);
                    }
                }
                self.analytics.average_download_speed = mixed as u64;
            }
        } else {
            if self.analytics.failed_downloads < u64::MAX {
                self.analytics.failed_downloads = self.analytics.failed_downloads + 1;
            }
        }
        self.refresh_most_active();
    }

    /// Append a terminal snapshot to the history, evicting the oldest
    /// entry beyond the capacity.
    fn push_history(&mut self, t: XdccTransfer)
        requires
            old(self).wf(),
        ensures
            final(self).wf(),
            final(self).history_view() == push_bounded(
                old(self).history_view(),
                t,
                old(self).hist_cap(),
            ),
            final(self).transfers_view() == old(self).transfers_view(),
            final(self).tokens_view() == old(self).tokens_view(),
            final(self).queue_view() == old(self).queue_view(),
            final(self).stats_view() == old(self).stats_view(),
            final(self).analytics_view() == old(self).analytics_view(),
            final(self).hist_cap() == old(self).hist_cap(),
            final(self).dir_view() == old(self).dir_view(),
    {
        let ghost h0 = self.history_view();
        self.history.push(t);
        if self.history.len() > self.max_history {
            self.history.remove(0);
            proof {
                assert(final(self).history_view() =~= push_bounded(
                    h0,
                    t,
                    old(self).hist_cap(),
                ));
            }
        } else {
            proof {
                assert(final(self).history_view() == push_bounded(
                    h0,
                    t,
                    old(self).hist_cap(),
                ));
            }
        }
    }

    /// Set an active transfer's status; a terminal status additionally
    /// snapshots the record into the history and folds it into the
    /// analytics. The record itself stays in the active set.
    pub fn update_status(&mut self, id: &str, status: TransferStatus)
        requires
            old(self).wf(),
        ensures
            final(self).wf(),
            !has_tid(old(self).transfers_view(), id@) ==> *final(self) == *old(self),
            has_tid(old(self).transfers_view(), id@) ==> exists|i: int|
                0 <= i < old(self).transfers_view().len()
                    && #[trigger] old(self).transfers_view()[i].transfer.id@ == id@ && final(self).transfers_view() == old(self).transfers_view().update(
                    i,
                    final(self).transfers_view()[i],
                ) && same_mod_status(
                    final(self).transfers_view()[i].transfer,
                    old(self).transfers_view()[i].transfer,
                ) && same_enh_wrap(
                    final(self).transfers_view()[i],
                    old(self).transfers_view()[i],
                ) && final(self).transfers_view()[i].transfer.status == status && (if (status
                    is Completed || status is Failed) {
                    final(self).history_view() == push_bounded(
                        old(self).history_view(),
                        final(self).transfers_view()[i].transfer,
                        old(self).hist_cap(),
                    ) && final(self).analytics_view().total_downloads == inc_sat(
                        old(self).analytics_view().total_downloads,
                    ) && (if status is Completed {
                        final(self).analytics_view().successful_downloads == inc_sat(
                            old(self).analytics_view().successful_downloads,
                        ) && final(self).analytics_view().failed_downloads == old(self).analytics_view().failed_downloads
                    } else {
                        final(self).analytics_view().failed_downloads == inc_sat(
                            old(self).analytics_view().failed_downloads,
                        ) && final(self).analytics_view().successful_downloads == old(self).analytics_view().successful_downloads
                    })
                } else {
                    final(self).history_view() == old(self).history_view() && final(self).analytics_view() == old(self).analytics_view()
                }),
            final(self).tokens_view() == old(self).tokens_view(),
            final(self).queue_view() == old(self).queue_view(),
            final(self).stats_view() == old(self).stats_view(),
    {
        match self.find_transfer_idx(id) {
            Some(i) => {
                let mut t = self.transfers[i].clone();
                t.transfer.status = status;
                t.transfer.updated_at = now_secs();
                let snapshot = t.transfer.clone();
                let ghost pre = self.transfers_view();
                self.transfers.set(i, t);
                proof {
                    assert(self.transfers_view() =~= pre.update(
                        i as int,
                        self.transfers_view()[i as int],
                    ));
                    assert(unique_tids(self.transfers_view()));
                }
                let terminal = matches!(status, TransferStatus::Completed | TransferStatus::Failed);
                if terminal {
                    self.push_history(snapshot.clone());
                    let success = matches!(status, TransferStatus::Completed);
                    self.update_analytics(&snapshot, success);
                }
            },
            None => {},
        }
    }
}


/// How a failure lands in the statistics: the bot's entry (created at
/// neutral if absent) counts one more failure at full recency.
pub open spec fn stats_failure_upsert(
    olds: Seq<BotStats>,
    news: Seq<BotStats>,
    bot: Seq<char>,
    net: Seq<char>,
) -> bool {
    if !has_bot(olds, bot, net) {
        &&& news.len() == olds.len() + 1
        &&& news == olds.push(news.last())
        &&& news.last().bot_name@ == bot
        &&& news.last().network@ == net
        &&& news.last().total_downloads == 1
        &&& news.last().successful_downloads == 0
        &&& news.last().failed_downloads == 1
        &&& news.last().total_bytes == 0
        &&& news.last().average_speed == 0
        &&& news.last().reliability_pm == spec_reliability_pm(0, 1, 1000)
    } else {
        exists|i: int|
            0 <= i < olds.len() && (#[trigger] olds[i]).bot_name@ == bot && olds[i].network@ == net
                && news == olds.update(i, news[i]) && (if olds[i].total_downloads < u64::MAX {
                &&& news[i].bot_name == olds[i].bot_name
                &&& news[i].network == olds[i].network
                &&& news[i].total_downloads == olds[i].total_downloads + 1
                &&& news[i].successful_downloads == olds[i].successful_downloads
                &&& news[i].failed_downloads == olds[i].failed_downloads + 1
                &&& news[i].total_bytes == olds[i].total_bytes
                &&& news[i].average_speed == olds[i].average_speed
                &&& news[i].reliability_pm == spec_reliability_pm(
                    olds[i].successful_downloads as int,
                    olds[i].total_downloads + 1,
                    1000,
                )
            } else {
                news[i] == olds[i]
            })
    }
}

/// How a success lands in the statistics: the bot's entry (created at
/// neutral if absent) counts one more success, adds the bytes and folds
/// the speed into its moving average, at full recency.
pub open spec fn stats_success_upsert(
    olds: Seq<BotStats>,
    news: Seq<BotStats>,
    bot: Seq<char>,
    net: Seq<char>,
    bytes: u64,
    speed: u64,
) -> bool {
    if !has_bot(olds, bot, net) {
        &&& news.len() == olds.len() + 1
        &&& news == olds.push(news.last())
        &&& news.last().bot_name@ == bot
        &&& news.last().network@ == net
        &&& news.last().total_downloads == 1
        &&& news.last().successful_downloads == 1
        &&& news.last().failed_downloads == 0
        &&& news.last().total_bytes == bytes
        &&& news.last().average_speed == speed
        &&& news.last().reliability_pm == spec_reliability_pm(1, 1, 1000)
    } else {
        exists|i: int|
            0 <= i < olds.len() && (#[trigger] olds[i]).bot_name@ == bot && olds[i].network@ == net
                && news == olds.update(i, news[i]) && (if olds[i].total_downloads < u64::MAX {
                &&& news[i].bot_name == olds[i].bot_name
                &&& news[i].network == olds[i].network
                &&& news[i].total_downloads == olds[i].total_downloads + 1
                &&& news[i].successful_downloads == olds[i].successful_downloads + 1
                &&& news[i].failed_downloads == olds[i].failed_downloads
                &&& news[i].total_bytes == add_sat(olds[i].total_bytes, bytes)
                &&& news[i].average_speed == (if olds[i].average_speed == 0 {
                    speed as int
                } else {
                    (olds[i].average_speed * 7 + speed * 3) / 10
                })
                &&& news[i].reliability_pm == spec_reliability_pm(
                    olds[i].successful_downloads + 1,
                    olds[i].total_downloads + 1,
                    1000,
                )
            } else {
                news[i] == olds[i]
            })
    }
}

impl EnhancedTransferManager {
    /// Drop the cancellation handle for `id`, if any.
    fn purge_token(&mut self, id: &str)
        requires
            old(self).wf(),
        ensures
            final(self).wf(),
            !has_tok(final(self).tokens_view(), id@),
            (if has_tok(old(self).tokens_view(), id@) {
                exists|i: int|
                    0 <= i < old(self).tokens_view().len() && (#[trigger] old(self).tokens_view()[i]).id@ == id@ && final(self).tokens_view() == old(self).tokens_view().remove(i)
            } else {
                final(self).tokens_view() == old(self).tokens_view()
            }),
            final(self).transfers_view() == old(self).transfers_view(),
            final(self).queue_view() == old(self).queue_view(),
            final(self).stats_view() == old(self).stats_view(),
            final(self).history_view() == old(self).history_view(),
            final(self).analytics_view() == old(self).analytics_view(),
            final(self).hist_cap() == old(self).hist_cap(),
            final(self).dir_view() == old(self).dir_view(),
    {
        match self.find_token_idx(id) {
            Some(i) => {
                let ghost pre = self.tokens_view();
                self.tokens.remove(i);
                proof {
                    assert(self.tokens_view() =~= pre.subrange(0, i as int) + pre.subrange(
                        i + 1,
                        pre.len() as int,
                    ));
                    assert(unique_toks(self.tokens_view()));
                    assert(!has_tok(self.tokens_view(), id@)) by {
                        if has_tok(self.tokens_view(), id@) {
                            let w = choose|w: int|
                                0 <= w < self.tokens_view().len() && self.tokens_view()[w].id@
                                    == id@;
                            if w < i {
                                assert(pre[w].id@ == id@);
                                assert(pre[i as int].id@ == id@);
                            } else {
                                assert(pre[w + 1].id@ == id@);
                                assert(pre[i as int].id@ == id@);
                            }
                        }
                    }
                }
            },
            None => {},
        }
    }

    /// Drop the queue entry for `id`, if any.
    fn purge_queue(&mut self, id: &str)
        requires
            old(self).wf(),
        ensures
            final(self).wf(),
            !has_qid(final(self).queue_view(), id@),
            (if has_qid(old(self).queue_view(), id@) {
                exists|i: int|
                    0 <= i < old(self).queue_view().len() && old(self).queue_view()[i] == id@
                        && final(self).queue_view() == old(self).queue_view().remove(i)
            } else {
                final(self).queue_view() == old(self).queue_view()
            }),
            final(self).transfers_view() == old(self).transfers_view(),
            final(self).tokens_view() == old(self).tokens_view(),
            final(self).stats_view() == old(self).stats_view(),
            final(self).history_view() == old(self).history_view(),
            final(self).analytics_view() == old(self).analytics_view(),
            final(self).hist_cap() == old(self).hist_cap(),
            final(self).dir_view() == old(self).dir_view(),
    {
        match self.find_queue_idx(id) {
            Some(i) => {
                let ghost pre = self.queue_view();
                self.queue.remove(i);
                proof {
                    assert(self.queue_view() =~= pre.subrange(0, i as int) + pre.subrange(
                        i + 1,
                        pre.len() as int,
                    ));
                    assert(self.queue_view() =~= pre.remove(i as int));
                    assert(unique_qids(self.queue_view()));
                    assert(!has_qid(self.queue_view(), id@)) by {
                        if has_qid(self.queue_view(), id@) {
                            let w = choose|w: int|
                                0 <= w < self.queue_view().len() && self.queue_view()[w] == id@;
                            if w < i {
                                assert(pre[w] == id@);
                                assert(pre[i as int] == id@);
                            } else {
                                assert(pre[w + 1] == id@);
                                assert(pre[i as int] == id@);
                            }
                        }
                    }
                }
            },
            None => {},
        }
    }

    /// Count a completed download against a bot identity, creating its
    /// entry on first sight.
    pub fn record_bot_success(&mut self, bot: &str, network: &str, bytes: u64, speed: u64)
        requires
            old(self).wf(),
        ensures
            final(self).wf(),
            stats_success_upsert(
                old(self).stats_view(),
                final(self).stats_view(),
                bot@,
                network@,
                bytes,
                speed,
            ),
            final(self).transfers_view() == old(self).transfers_view(),
            final(self).tokens_view() == old(self).tokens_view(),
            final(self).queue_view() == old(self).queue_view(),
            final(self).history_view() == old(self).history_view(),
            final(self).analytics_view() == old(self).analytics_view(),
            final(self).hist_cap() == old(self).hist_cap(),
            final(self).dir_view() == old(self).dir_view(),
    {
        match self.find_stats_idx(bot, network) {
            Some(i) => {
                if self.bot_stats[i].total_downloads < u64::MAX {
                    let mut e = self.bot_stats[i].clone();
                    e.record_success(bytes, speed);
                    let ghost pre = self.stats_view();
                    self.bot_stats.set(i, e);
                    proof {
                        assert(self.stats_view() =~= pre.update(
                            i as int,
                            self.stats_view()[i as int],
                        ));
                        assert(unique_bots(self.stats_view()));
                    }
                } else {
                    proof {
                        assert(self.stats_view() =~= self.stats_view().update(
                            i as int,
                            self.stats_view()[i as int],
                        ));
                    }
                }
            },
            None => {
                let mut e = BotStats::new(bot.to_owned(), network.to_owned());
                e.record_success(bytes, speed);
                self.bot_stats.push(e);
                proof {
                    assert(unique_bots(self.stats_view()));
                }
            },
        }
    }

    /// Count a failed download against a bot identity, creating its
    /// entry on first sight.
    pub fn record_bot_failure(&mut self, bot: &str, network: &str)
        requires
            old(self).wf(),
        ensures
            final(self).wf(),
            stats_failure_upsert(
                old(self).stats_view(),
                final(self).stats_view(),
                bot@,
                network@,
            ),
            final(self).transfers_view() == old(self).transfers_view(),
            final(self).tokens_view() == old(self).tokens_view(),
            final(self).queue_view() == old(self).queue_view(),
            final(self).history_view() == old(self).history_view(),
            final(self).analytics_view() == old(self).analytics_view(),
            final(self).hist_cap() == old(self).hist_cap(),
            final(self).dir_view() == old(self).dir_view(),
    {
        match self.find_stats_idx(bot, network) {
            Some(i) => {
                if self.bot_stats[i].total_downloads < u64::MAX {
                    let mut e = self.bot_stats[i].clone();
                    e.record_failure();
                    let ghost pre = self.stats_view();
                    self.bot_stats.set(i, e);
                    proof {
                        assert(self.stats_view() =~= pre.update(
                            i as int,
                            self.stats_view()[i as int],
                        ));
                        assert(unique_bots(self.stats_view()));
                    }
                } else {
                    proof {
                        assert(self.stats_view() =~= self.stats_view().update(
                            i as int,
                            self.stats_view()[i as int],
                        ));
                    }
                }
            },
            None => {
                let mut e = BotStats::new(bot.to_owned(), network.to_owned());
                e.record_failure();
                self.bot_stats.push(e);
                proof {
                    assert(unique_bots(self.stats_view()));
                }
            },
        }
    }

    /// Hard-delete a transfer from the active set, its handle and the
    /// queue; reports whether it existed.
    pub fn remove_transfer(&mut self, id: &str) -> (r: bool)
        requires
            old(self).wf(),
        ensures
            final(self).wf(),
            r == has_tid(old(self).transfers_view(), id@),
            !r ==> *final(self) == *old(self),
            r ==> exists|i: int|
                0 <= i < old(self).transfers_view().len() && (#[trigger] old(self).transfers_view()[i]).transfer.id@ == id@ && final(self).transfers_view() == old(self).transfers_view().remove(i),
            r ==> !has_tok(final(self).tokens_view(), id@) && !has_qid(
                final(self).queue_view(),
                id@,
            ) && !has_tid(final(self).transfers_view(), id@),
            final(self).stats_view() == old(self).stats_view(),
            final(self).history_view() == old(self).history_view(),
            final(self).analytics_view() == old(self).analytics_view(),
    {
        match self.find_transfer_idx(id) {
            Some(i) => {
                let ghost pre = self.transfers_view();
                self.transfers.remove(i);
                proof {
                    assert(self.transfers_view() =~= pre.subrange(0, i as int) + pre.subrange(
                        i + 1,
                        pre.len() as int,
                    ));
                    assert(self.transfers_view() =~= pre.remove(i as int));
                    assert(unique_tids(self.transfers_view()));
                    assert(!has_tid(self.transfers_view(), id@)) by {
                        if has_tid(self.transfers_view(), id@) {
                            let w = choose|w: int|
                                0 <= w < self.transfers_view().len()
                                    && self.transfers_view()[w].transfer.id@ == id@;
                            if w < i {
                                assert(pre[w].transfer.id@ == id@);
                                assert(pre[i as int].transfer.id@ == id@);
                            } else {
                                assert(pre[w + 1].transfer.id@ == id@);
                                assert(pre[i as int].transfer.id@ == id@);
                            }
                        }
                    }
                }
                self.purge_token(id);
                self.purge_queue(id);
                true
            },
            None => false,
        }
    }

    /// Cancel a transfer: a terminal record is simply removed; an active
    /// one has its handle signalled, its status set to `Cancelled`, and
    /// its handle and queue entry dropped. Reports whether the identifier
    /// was known.
    pub fn cancel_transfer(&mut self, id: &str) -> (r: bool)
        requires
            old(self).wf(),
        ensures
            final(self).wf(),
            r == has_tid(old(self).transfers_view(), id@),
            !r ==> *final(self) == *old(self),
            // A terminal record is removed outright.
            (r && (exists|i: int|
                0 <= i < old(self).transfers_view().len() && (#[trigger] old(self).transfers_view()[i]).transfer.id@ == id@
                    && old(self).transfers_view()[i].transfer.status.is_terminal())) ==> (exists|
                i: int,
            |
                0 <= i < old(self).transfers_view().len() && (#[trigger] old(self).transfers_view()[i]).transfer.id@ == id@ && final(self).transfers_view() == old(self).transfers_view().remove(i)),
            // An active record is kept, marked `Cancelled`.
            (r && (exists|i: int|
                0 <= i < old(self).transfers_view().len() && (#[trigger] old(self).transfers_view()[i]).transfer.id@ == id@ && !old(self).transfers_view()[i].transfer.status.is_terminal())) ==> (exists|i: int|
                0 <= i < old(self).transfers_view().len() && (#[trigger] old(self).transfers_view()[i]).transfer.id@ == id@ && final(self).transfers_view() == old(self).transfers_view().update(i, final(self).transfers_view()[i]) && same_mod_status(
                    final(self).transfers_view()[i].transfer,
                    old(self).transfers_view()[i].transfer,
                ) && same_enh_wrap(
                    final(self).transfers_view()[i],
                    old(self).transfers_view()[i],
                ) && final(self).transfers_view()[i].transfer.status is Cancelled),
            r ==> !has_tok(final(self).tokens_view(), id@) && !has_qid(
                final(self).queue_view(),
                id@,
            ),
            final(self).stats_view() == old(self).stats_view(),
            final(self).history_view() == old(self).history_view(),
            final(self).analytics_view() == old(self).analytics_view(),
    {
        let finished: bool = match self.find_transfer_idx(id) {
            Some(i) => self.transfers[i].transfer.status.terminal(),
            None => {
                return false;
            },
        };
        if finished {
            return self.remove_transfer(id);
        }
        match self.find_token_idx(id) {
            Some(i) => {
                token_cancel(&self.tokens[i].token);
            },
            None => {},
        }
        match self.find_transfer_idx(id) {
            Some(i) => {
                let mut t = self.transfers[i].clone();
                t.transfer.status = TransferStatus::Cancelled;
                t.transfer.updated_at = now_secs();
                let ghost pre = self.transfers_view();
                self.transfers.set(i, t);
                proof {
                    assert(self.transfers_view() =~= pre.update(
                        i as int,
                        self.transfers_view()[i as int],
                    ));
                    assert(unique_tids(self.transfers_view()));
                }
                self.purge_token(id);
                self.purge_queue(id);
                true
            },
            None => false,
        }
    }
}


impl EnhancedTransferManager {
    /// Manually retry a transfer: spend one retry, reset it to `Pending`
    /// with its error cleared, and re-queue it. Refused when the
    /// identifier is unknown or the budget is exhausted.
    pub fn retry_transfer(&mut self, id: &str) -> (r: bool)
        requires
            old(self).wf(),
        ensures
            final(self).wf(),
            r == exists|i: int|
                0 <= i < old(self).transfers_view().len() && (#[trigger] old(self).transfers_view()[i]).transfer.id@ == id@ && old(self).transfers_view()[i].retry_count < old(self).transfers_view()[i].max_retries,
            !r ==> final(self).transfers_view() == old(self).transfers_view() && final(self).queue_view() == old(self).queue_view(),
            r ==> exists|i: int|
                0 <= i < old(self).transfers_view().len() && (#[trigger] old(self).transfers_view()[i]).transfer.id@ == id@ && final(self).transfers_view()[i].retry_count == old(self).transfers_view()[i].retry_count + 1
                    && final(self).transfers_view()[i].max_retries == old(self).transfers_view()[i].max_retries && final(self).transfers_view()[i].priority
                    == old(self).transfers_view()[i].priority && final(self).transfers_view()[i].transfer.status is Pending && final(self).transfers_view()[i].transfer.error is None && final(self).transfers_view()[i].transfer.speed == 0 && final(self).transfers_view()[i].transfer.id == old(self).transfers_view()[i].transfer.id
                    && final(self).transfers_view()[i].transfer.url == old(self).transfers_view()[i].transfer.url && final(self).transfers_view()[i].transfer.downloaded == old(self).transfers_view()[i].transfer.downloaded && final(self).transfers_view()[i].transfer.progress == old(self).transfers_view()[i].transfer.progress && final(self).transfers_view().len()
                    == old(self).transfers_view().len(),
            r ==> final(self).queue_view().len() > 0 && final(self).queue_view().last() == id@
                && positions_ok(final(self).transfers_view(), final(self).queue_view()),
            final(self).tokens_view() == old(self).tokens_view(),
            final(self).stats_view() == old(self).stats_view(),
            final(self).history_view() == old(self).history_view(),
            final(self).analytics_view() == old(self).analytics_view(),
    {
        match self.find_transfer_idx(id) {
            Some(i) => {
                if !self.transfers[i].can_retry() {
                    return false;
                }
                let mut t = self.transfers[i].clone();
                t.retry_count = t.retry_count + 1;
                t.transfer.status = TransferStatus::Pending;
                t.transfer.error = None;
                t.transfer.speed = 0;
                t.transfer.updated_at = now_secs();
                let ghost pre = self.transfers_view();
                self.transfers.set(i, t);
                proof {
                    assert(self.transfers_view() =~= pre.update(
                        i as int,
                        self.transfers_view()[i as int],
                    ));
                    assert(unique_tids(self.transfers_view()));
                }
                let own_id = self.transfers[i].transfer.id.clone();
                self.add_to_queue(own_id);
                true
            },
            None => false,
        }
    }

    /// Change a transfer's priority; a still-pending transfer is moved to
    /// the back of the queue. Reports whether the identifier was known.
    pub fn set_priority(&mut self, id: &str, priority: TransferPriority) -> (r: bool)
        requires
            old(self).wf(),
        ensures
            final(self).wf(),
            r == has_tid(old(self).transfers_view(), id@),
            !r ==> *final(self) == *old(self),
            r ==> exists|i: int|
                0 <= i < old(self).transfers_view().len() && (#[trigger] old(self).transfers_view()[i]).transfer.id@ == id@ && final(self).transfers_view()[i].priority == priority && final(self).transfers_view()[i].transfer == old(self).transfers_view()[i].transfer && final(self).transfers_view()[i].retry_count == old(self).transfers_view()[i].retry_count
                    && final(self).transfers_view().len() == old(self).transfers_view().len(),
            final(self).tokens_view() == old(self).tokens_view(),
            final(self).stats_view() == old(self).stats_view(),
            final(self).history_view() == old(self).history_view(),
            final(self).analytics_view() == old(self).analytics_view(),
    {
        match self.find_transfer_idx(id) {
            Some(i) => {
                let mut t = self.transfers[i].clone();
                t.priority = priority;
                let ghost pre = self.transfers_view();
                self.transfers.set(i, t);
                proof {
                    assert(self.transfers_view() =~= pre.update(
                        i as int,
                        self.transfers_view()[i as int],
                    ));
                    assert(unique_tids(self.transfers_view()));
                }
                let pending = matches!(
                    self.transfers[i].transfer.status,
                    TransferStatus::Pending,
                );
                if pending {
                    let own_id = self.transfers[i].transfer.id.clone();
                    self.add_to_queue(own_id);
                }
                true
            },
            None => false,
        }
    }

    /// The retry decision point. A non-fatal failure with budget left
    /// spends one retry, resets the record to `Pending`, swaps in a fresh
    /// cancellation handle and hands back the locator so the caller can
    /// start a new attempt. Otherwise the record is removed, counted
    /// against the bot, snapshotted into history as `Failed` and folded
    /// into the analytics.
    pub fn set_failed(&mut self, id: &str, error: String, fatal: bool) -> (r: Option<
        (XdccUrl, CancellationToken),
    >)
        requires
            old(self).wf(),
        ensures
            final(self).wf(),
            // The retry directive comes exactly when the failure is
            // retryable and the budget allows.
            (r is Some <==> exists|i: int|
                0 <= i < old(self).transfers_view().len() && (#[trigger] old(self).transfers_view()[i]).transfer.id@ == id@ && !fatal && old(self).transfers_view()[i].retry_count < old(self).transfers_view()[i].max_retries),
            r is Some ==> exists|i: int|
                0 <= i < old(self).transfers_view().len() && (#[trigger] old(self).transfers_view()[i]).transfer.id@ == id@ && final(self).transfers_view()[i].retry_count == old(self).transfers_view()[i].retry_count + 1
                    && final(self).transfers_view()[i].max_retries == old(self).transfers_view()[i].max_retries && final(self).transfers_view()[i].transfer.status is Pending && final(self).transfers_view()[i].transfer.error is None && final(self).transfers_view()[i].transfer.speed == 0 && final(self).transfers_view()[i].transfer.id == old(self).transfers_view()[i].transfer.id
                    && final(self).transfers_view()[i].transfer.url == old(self).transfers_view()[i].transfer.url && (r->0).0 == old(self).transfers_view()[i].transfer.url && final(self).transfers_view().len() == old(self).transfers_view().len() && has_tok(final(self).tokens_view(), id@) && final(self).history_view() == old(self).history_view() && final(self).stats_view() == old(self).stats_view() && final(self).analytics_view() == old(self).analytics_view()
                    && final(self).queue_view() == old(self).queue_view(),
            // A fatal or exhausted failure removes the record for good.
            r is None && has_tid(old(self).transfers_view(), id@) ==> exists|i: int|
                0 <= i < old(self).transfers_view().len() && (#[trigger] old(self).transfers_view()[i]).transfer.id@ == id@ && final(self).transfers_view() == old(self).transfers_view().remove(i) && final(self).history_view() == push_bounded(
                    old(self).history_view(),
                    final(self).history_view().last(),
                    old(self).hist_cap(),
                ) && final(self).history_view().last().id == old(self).transfers_view()[i].transfer.id && final(self).history_view().last().status
                    is Failed && final(self).history_view().last().error == Some(error)
                    && stats_failure_upsert(
                    old(self).stats_view(),
                    final(self).stats_view(),
                    old(self).transfers_view()[i].transfer.url.bot@,
                    old(self).transfers_view()[i].transfer.url.network@,
                ) && final(self).analytics_view().failed_downloads == inc_sat(
                    old(self).analytics_view().failed_downloads,
                ),
            r is None && !has_tid(old(self).transfers_view(), id@) ==> final(self).transfers_view() == old(self).transfers_view() && final(self).history_view() == old(self).history_view() && final(self).stats_view() == old(self).stats_view() && final(self).analytics_view() == old(self).analytics_view(),
            r is None ==> !has_tok(final(self).tokens_view(), id@) && !has_qid(
                final(self).queue_view(),
                id@,
            ) && !has_tid(final(self).transfers_view(), id@),
    {
        let retryable: bool = match self.find_transfer_idx(id) {
            Some(i) => !fatal && self.transfers[i].can_retry(),
            None => false,
        };
        if retryable {
            match self.find_transfer_idx(id) {
                Some(i) => {
                    let mut t = self.transfers[i].clone();
                    t.retry_count = t.retry_count + 1;
                    t.transfer.status = TransferStatus::Pending;
                    t.transfer.error = None;
                    t.transfer.speed = 0;
                    t.transfer.updated_at = now_secs();
                    let url = t.transfer.url.clone();
                    let ghost pre = self.transfers_view();
                    self.transfers.set(i, t);
                    proof {
                        assert(self.transfers_view() =~= pre.update(
                            i as int,
                            self.transfers_view()[i as int],
                        ));
                        assert(unique_tids(self.transfers_view()));
                    }
                    let new_token = token_new();
                    self.purge_token(id);
                    let ghost midtok = self.tokens_view();
                    self.tokens.push(
                        TokenEntry { id: id.to_owned(), token: token_clone(&new_token) },
                    );
                    proof {
                        assert(unique_toks(self.tokens_view()));
                        assert(self.tokens_view().last().id@ == id@);
                    }
                    return Some((url, new_token));
                },
                None => {
                    return None;
                },
            }
        }
        // Permanent failure: remove, record, archive.
        match self.find_transfer_idx(id) {
            Some(i) => {
                let mut t = self.transfers[i].clone();
                let ghost pre = self.transfers_view();
                self.transfers.remove(i);
                proof {
                    assert(self.transfers_view() =~= pre.subrange(0, i as int) + pre.subrange(
                        i + 1,
                        pre.len() as int,
                    ));
                    assert(self.transfers_view() =~= pre.remove(i as int));
                    assert(unique_tids(self.transfers_view()));
                    assert(!has_tid(self.transfers_view(), id@)) by {
                        if has_tid(self.transfers_view(), id@) {
                            let w = choose|w: int|
                                0 <= w < self.transfers_view().len()
                                    && self.transfers_view()[w].transfer.id@ == id@;
                            if w < i {
                                assert(pre[w].transfer.id@ == id@);
                                assert(pre[i as int].transfer.id@ == id@);
                            } else {
                                assert(pre[w + 1].transfer.id@ == id@);
                                assert(pre[i as int].transfer.id@ == id@);
                            }
                        }
                    }
                }
                t.transfer.status = TransferStatus::Failed;
                t.transfer.error = Some(error);
                t.transfer.updated_at = now_secs();
                let bot = t.transfer.url.bot.clone();
                let network = t.transfer.url.network.clone();
                self.push_history(t.transfer.clone());
                self.record_bot_failure(bot.as_str(), network.as_str());
                self.update_analytics(&t.transfer, false);
            },
            None => {},
        }
        self.purge_token(id);
        self.purge_queue(id);
        None
    }

    /// Mark a transfer completed: full progress, the bot credited with
    /// the announced bytes at the final speed, the snapshot archived, the
    /// analytics fed, and the record with its handle and queue entry
    /// dropped. An unknown identifier changes nothing.
    pub fn set_completed(&mut self, id: &str)
        requires
            old(self).wf(),
        ensures
            final(self).wf(),
            !has_tid(old(self).transfers_view(), id@) ==> *final(self) == *old(self),
            has_tid(old(self).transfers_view(), id@) ==> exists|i: int|
                0 <= i < old(self).transfers_view().len() && (#[trigger] old(self).transfers_view()[i]).transfer.id@ == id@ && final(self).transfers_view() == old(self).transfers_view().remove(i) && final(self).history_view() == push_bounded(
                    old(self).history_view(),
                    final(self).history_view().last(),
                    old(self).hist_cap(),
                ) && final(self).history_view().last().id == old(self).transfers_view()[i].transfer.id && final(self).history_view().last().status
                    is Completed && final(self).history_view().last().progress == 100
                    && stats_success_upsert(
                    old(self).stats_view(),
                    final(self).stats_view(),
                    old(self).transfers_view()[i].transfer.url.bot@,
                    old(self).transfers_view()[i].transfer.url.network@,
                    (match old(self).transfers_view()[i].transfer.size {
                        Some(sz) => sz,
                        None => 0,
                    }),
                    old(self).transfers_view()[i].transfer.speed,
                ) && final(self).analytics_view().successful_downloads == inc_sat(
                    old(self).analytics_view().successful_downloads,
                ) && !has_tok(final(self).tokens_view(), id@) && !has_qid(
                    final(self).queue_view(),
                    id@,
                ) && !has_tid(final(self).transfers_view(), id@),
    {
        match self.find_transfer_idx(id) {
            Some(i) => {
                let mut t = self.transfers[i].clone();
                let ghost pre = self.transfers_view();
                self.transfers.remove(i);
                proof {
                    assert(self.transfers_view() =~= pre.subrange(0, i as int) + pre.subrange(
                        i + 1,
                        pre.len() as int,
                    ));
                    assert(self.transfers_view() =~= pre.remove(i as int));
                    assert(unique_tids(self.transfers_view()));
                    assert(!has_tid(self.transfers_view(), id@)) by {
                        if has_tid(self.transfers_view(), id@) {
                            let w = choose|w: int|
                                0 <= w < self.transfers_view().len()
                                    && self.transfers_view()[w].transfer.id@ == id@;
                            if w < i {
                                assert(pre[w].transfer.id@ == id@);
                                assert(pre[i as int].transfer.id@ == id@);
                            } else {
                                assert(pre[w + 1].transfer.id@ == id@);
                                assert(pre[i as int].transfer.id@ == id@);
                            }
                        }
                    }
                }
                t.transfer.status = TransferStatus::Completed;
                t.transfer.progress = 100;
                t.transfer.updated_at = now_secs();
                let bot = t.transfer.url.bot.clone();
                let network = t.transfer.url.network.clone();
                let bytes: u64 = match t.transfer.size {
                    Some(sz) => sz,
                    None => 0,
                };
                let speed = t.transfer.speed;
                self.record_bot_success(bot.as_str(), network.as_str(), bytes, speed);
                self.push_history(t.transfer.clone());
                self.update_analytics(&t.transfer, true);
                self.purge_token(id);
                self.purge_queue(id);
            },
            None => {},
        }
    }

    /// Remove a history entry. `None` when the identifier is unknown;
    /// otherwise the sanitized path the caller should delete, when file
    /// deletion was asked for and the entry named a file.
    pub fn delete_history_item(&mut self, id: &str, delete_file: bool) -> (r: Option<
        Option<String>,
    >)
        requires
            old(self).wf(),
        ensures
            final(self).wf(),
            r is None ==> *final(self) == *old(self) && (forall|i: int|
                0 <= i < old(self).history_view().len()
                    ==> (#[trigger] old(self).history_view()[i]).id@ != id@),
            r is Some ==> exists|i: int|
                0 <= i < old(self).history_view().len() && (#[trigger] old(self).history_view()[i]).id@ == id@ && final(self).history_view() == old(self).history_view().remove(i) && (match (r->0, old(self).history_view()[i].filename) {
                    (Some(p), Some(f)) => delete_file && p@ == old(self).dir_view() + seq!['/']
                        + crate::dcc::sanitize_name(f@),
                    (None, _) => !delete_file || old(self).history_view()[i].filename is None,
                    _ => false,
                }),
            final(self).transfers_view() == old(self).transfers_view(),
            final(self).tokens_view() == old(self).tokens_view(),
            final(self).queue_view() == old(self).queue_view(),
            final(self).stats_view() == old(self).stats_view(),
            final(self).analytics_view() == old(self).analytics_view(),
    {
        let n: usize = self.history.len();
        let mut i: usize = 0;
        while i < n
            invariant
                i <= n,
                n == self.history@.len(),
                *self == *old(self),
                old(self).wf(),
                forall|j: int| 0 <= j < i ==> (#[trigger] self.history@[j]).id@ != id@,
            decreases n - i,
        {
            if crate::strings::str_eq(self.history[i].id.as_str(), id) {
                let item = self.history.remove(i);
                let path: Option<String> = if delete_file {
                    match &item.filename {
                        Some(f) => {
                            let mut p = self.download_dir.clone();
                            crate::trusted::push_char(&mut p, '/');
                            let safe = crate::dcc::sanitize_filename(f.as_str());
                            vstd::string::StringExecFns::append(&mut p, safe.as_str());
                            proof {
                                assert(p@ =~= old(self).dir_view() + seq!['/']
                                    + crate::dcc::sanitize_name(f@));
                            }
                            Some(p)
                        },
                        None => None,
                    }
                } else {
                    None
                };
                return Some(path);
            }
            i = i + 1;
        }
        None
    }
}


/// Inserting anywhere adds exactly one copy to the multiset.
proof fn lemma_multiset_insert_mid<A>(s: Seq<A>, i: int, x: A)
    requires
        0 <= i <= s.len(),
    ensures
        s.insert(i, x).to_multiset() == s.to_multiset().insert(x),
{
    broadcast use vstd::seq_lib::group_to_multiset_ensures;

    let a = s.subrange(0, i);
    let b = s.subrange(i, s.len() as int);
    assert(s.insert(i, x) =~= a.push(x) + b);
    assert(s =~= a + b);
    vstd::seq_lib::lemma_multiset_commutative(a.push(x), b);
    vstd::seq_lib::lemma_multiset_commutative(a, b);
    assert(a.push(x).to_multiset() == a.to_multiset().insert(x));
    assert(s.insert(i, x).to_multiset() =~= s.to_multiset().insert(x));
}

impl EnhancedTransferManager {
    /// Copies of all bot statistics, most reliable first.
    pub fn get_all_bot_stats(&self) -> (r: Vec<BotStats>)
        ensures
            r@.to_multiset() == self.stats_view().to_multiset(),
            r@.len() == self.stats_view().len(),
            forall|a: int, b: int|
                0 <= a < b < r@.len() ==> (#[trigger] r@[a]).reliability_pm >= (
                #[trigger] r@[b]).reliability_pm,
    {
        let n: usize = self.bot_stats.len();
        let mut r: Vec<BotStats> = Vec::new();
        let mut i: usize = 0;
        proof {
            broadcast use vstd::seq_lib::group_to_multiset_ensures;

            assert(self.stats_view().subrange(0, 0) =~= Seq::<BotStats>::empty());
            assert(r@.to_multiset() =~= self.stats_view().subrange(0, 0).to_multiset());
        }
        while i < n
            invariant
                i <= n,
                n == self.bot_stats@.len(),
                r@.len() == i,
                r@.to_multiset() == self.stats_view().subrange(0, i as int).to_multiset(),
                forall|a: int, b: int|
                    0 <= a < b < r@.len() ==> (#[trigger] r@[a]).reliability_pm >= (
                    #[trigger] r@[b]).reliability_pm,
            decreases n - i,
        {
            let x = self.bot_stats[i].clone();
            let rn: usize = r.len();
            let mut pos: usize = 0;
            while pos < rn && r[pos].reliability_pm >= x.reliability_pm
                invariant
                    pos <= rn,
                    rn == r@.len(),
                    forall|j: int| 0 <= j < pos ==> (#[trigger] r@[j]).reliability_pm
                        >= x.reliability_pm,
                decreases rn - pos,
            {
                pos = pos + 1;
            }
            let ghost pre = r@;
            r.insert(pos, x);
            proof {
                broadcast use vstd::seq_lib::group_to_multiset_ensures;

                lemma_multiset_insert_mid(pre, pos as int, x);
                let sub = self.stats_view().subrange(0, i + 1);
                assert(sub.drop_last() =~= self.stats_view().subrange(0, i as int));
                assert(sub =~= sub.drop_last().push(self.stats_view()[i as int]));
                assert(sub.to_multiset() == sub.drop_last().to_multiset().insert(
                    self.stats_view()[i as int],
                ));
                assert(r@ == pre.insert(pos as int, x));
                assert forall|a: int, b: int|
                    0 <= a < b < r@.len() implies (#[trigger] r@[a]).reliability_pm >= (
                #[trigger] r@[b]).reliability_pm by {
                    assert(r@ =~= pre.subrange(0, pos as int) + seq![x] + pre.subrange(
                        pos as int,
                        pre.len() as int,
                    ));
                    if pos < rn {
                        assert(pre[pos as int].reliability_pm < x.reliability_pm);
                    }
                }
            }
            i = i + 1;
        }
        proof {
            assert(self.stats_view().subrange(0, n as int) =~= self.stats_view());
        }
        r
    }

    /// Copies of all active transfers, newest first by creation time.
    pub fn list_transfers(&self) -> (r: Vec<EnhancedTransfer>)
        ensures
            r@.to_multiset() == self.transfers_view().to_multiset(),
            r@.len() == self.transfers_view().len(),
            forall|a: int, b: int|
                0 <= a < b < r@.len() ==> (#[trigger] r@[a]).transfer.created_at >= (
                #[trigger] r@[b]).transfer.created_at,
    {
        let n: usize = self.transfers.len();
        let mut r: Vec<EnhancedTransfer> = Vec::new();
        let mut i: usize = 0;
        proof {
            broadcast use vstd::seq_lib::group_to_multiset_ensures;

            assert(self.transfers_view().subrange(0, 0) =~= Seq::<EnhancedTransfer>::empty());
            assert(r@.to_multiset() =~= self.transfers_view().subrange(0, 0).to_multiset());
        }
        while i < n
            invariant
                i <= n,
                n == self.transfers@.len(),
                r@.len() == i,
                r@.to_multiset() == self.transfers_view().subrange(0, i as int).to_multiset(),
                forall|a: int, b: int|
                    0 <= a < b < r@.len() ==> (#[trigger] r@[a]).transfer.created_at >= (
                    #[trigger] r@[b]).transfer.created_at,
            decreases n - i,
        {
            let x = self.transfers[i].clone();
            let rn: usize = r.len();
            let mut pos: usize = 0;
            while pos < rn && r[pos].transfer.created_at >= x.transfer.created_at
                invariant
                    pos <= rn,
                    rn == r@.len(),
                    forall|j: int| 0 <= j < pos ==> (#[trigger] r@[j]).transfer.created_at
                        >= x.transfer.created_at,
                decreases rn - pos,
            {
                pos = pos + 1;
            }
            let ghost pre = r@;
            r.insert(pos, x);
            proof {
                broadcast use vstd::seq_lib::group_to_multiset_ensures;

                lemma_multiset_insert_mid(pre, pos as int, x);
                let sub = self.transfers_view().subrange(0, i + 1);
                assert(sub.drop_last() =~= self.transfers_view().subrange(0, i as int));
                assert(sub =~= sub.drop_last().push(self.transfers_view()[i as int]));
                assert(sub.to_multiset() == sub.drop_last().to_multiset().insert(
                    self.transfers_view()[i as int],
                ));
                assert(r@ == pre.insert(pos as int, x));
                assert forall|a: int, b: int|
                    0 <= a < b < r@.len() implies (#[trigger] r@[a]).transfer.created_at >= (
                #[trigger] r@[b]).transfer.created_at by {
                    assert(r@ =~= pre.subrange(0, pos as int) + seq![x] + pre.subrange(
                        pos as int,
                        pre.len() as int,
                    ));
                    if pos < rn {
                        assert(pre[pos as int].transfer.created_at < x.transfer.created_at);
                    }
                }
            }
            i = i + 1;
        }
        proof {
            assert(self.transfers_view().subrange(0, n as int) =~= self.transfers_view());
        }
        r
    }
}


/// The bounded history never exceeds its capacity, and when full the
/// oldest entry is the one evicted: the survivors shift down one place
/// and the newcomer takes the last.
pub proof fn lemma_history_bounded(h: Seq<XdccTransfer>, t: XdccTransfer, cap: int)
    requires
        h.len() <= cap,
        cap >= 1,
    ensures
        push_bounded(h, t, cap).len() <= cap,
        h.len() < cap ==> push_bounded(h, t, cap) == h.push(t),
        h.len() == cap ==> push_bounded(h, t, cap).len() == cap && (forall|i: int|
            0 <= i < cap - 1 ==> push_bounded(h, t, cap)[i] == h[i + 1]) && push_bounded(
            h,
            t,
            cap,
        )[cap - 1] == t,
{
}

/// A transfer that exhausts its retries lands in the history exactly
/// once: pushing a snapshot whose identifier the history did not yet
/// hold leaves exactly one entry with that identifier.
pub proof fn lemma_failed_once_in_history(
    h: Seq<XdccTransfer>,
    t: XdccTransfer,
    cap: int,
    id: Seq<char>,
)
    requires
        h.len() <= cap,
        cap >= 1,
        t.id@ == id,
        forall|j: int| 0 <= j < h.len() ==> (#[trigger] h[j]).id@ != id,
    ensures
        exists|i: int|
            0 <= i < push_bounded(h, t, cap).len() && (#[trigger] push_bounded(h, t, cap)[i]).id@
                == id,
        forall|i: int, j: int|
            0 <= i < j < push_bounded(h, t, cap).len() && (#[trigger] push_bounded(
                h,
                t,
                cap,
            )[i]).id@ == id && (#[trigger] push_bounded(h, t, cap)[j]).id@ == id ==> false,
{
    let out = push_bounded(h, t, cap);
    assert(out[out.len() - 1] == t);
    assert forall|i: int| 0 <= i < out.len() - 1 implies (#[trigger] out[i]).id@ != id by {
        if h.len() < cap {
            assert(out[i] == h[i]);
        } else {
            assert(out[i] == h.push(t)[i + h.len() + 1 - cap]);
        }
    }
}

/// Every retry budget in a well-formed manager is respected: no
/// transfer's retry count exceeds its maximum.
pub proof fn lemma_retry_budget(m: &EnhancedTransferManager)
    requires
        m.wf(),
    ensures
        forall|i: int|
            0 <= i < m.transfers_view().len() ==> (#[trigger] m.transfers_view()[i]).retry_count
                <= m.transfers_view()[i].max_retries,
{
}

} // verus!
