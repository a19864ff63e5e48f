//! Starting the daemon: which services it runs on which ports, where its
//! database and blobs live, and what a blob-store recovery counted.

use vstd::prelude::*;

use crate::mounts::{join_path, join_path_str};
use crate::text::{dec, push_decimal, push_str};

verus! {

/// Command-line options of the daemon.
pub struct Daemon {
    /// Run only the gateway server (no HTML UI, no API server)
    pub gateway_only: bool,
    /// API hostname to use for HTML UI (default: http://localhost:<api_port>)
    pub api_hostname: Option<String>,
    /// Enable gateway server (uses port from config, default 9090)
    pub gateway: bool,
    /// Override gateway port (implies --gateway)
    pub gateway_port: Option<u16>,
    /// Gateway URL for share/download links (e.g., https://gateway.example.com)
    pub gateway_url: Option<String>,
}

/// Errors of running the daemon.
pub enum DaemonError {
    /// Loading the daemon's state failed; its message.
    StateError(String),
    Failed(String),
}

impl DaemonError {
    pub fn message(&self) -> (r: String)
        ensures
            r@ == match self {
                DaemonError::StateError(e) => "state error: "@ + e@,
                DaemonError::Failed(e) => "daemon failed: "@ + e@,
            },
    {
        let (prefix, e) = match self {
            DaemonError::StateError(e) => ("state error: ", e),
            DaemonError::Failed(e) => ("daemon failed: ", e),
        };
        let mut r = String::from_str(prefix);
        push_str(&mut r, e.as_str());
        r
    }
}

/// What the daemon runs.
pub enum DaemonPlan {
    /// Only the gateway, on the given port.
    GatewayOnly { port: u16 },
    /// The HTML UI and the API, and the gateway on the given port if any.
    Full { gateway_port: Option<u16> },
}

/// The gateway port of a full daemon: the `--gateway-port` override, else
/// the configured port when `--gateway` asks for the gateway, else none.
pub open spec fn full_gateway_port(d: Daemon, configured: u16) -> Option<u16> {
    match d.gateway_port {
        Some(p) => Some(p),
        None => if d.gateway {
            Some(configured)
        } else {
            None
        },
    }
}

impl Daemon {
    /// What to run, given the gateway port of the configuration.
    pub fn plan(&self, configured_gateway_port: u16) -> (r: DaemonPlan)
        ensures
            self.gateway_only ==> r == (DaemonPlan::GatewayOnly {
                port: match self.gateway_port {
                    Some(p) => p,
                    None => configured_gateway_port,
                },
            }),
            !self.gateway_only ==> r == (DaemonPlan::Full {
                gateway_port: full_gateway_port(*self, configured_gateway_port),
            }),
            self.gateway_port matches Some(p) ==> (r matches DaemonPlan::GatewayOnly { port } && port == p)
                || r == (DaemonPlan::Full { gateway_port: Some(p) }),
    {
        if self.gateway_only {
            let port = match self.gateway_port {
                Some(p) => p,
                None => configured_gateway_port,
            };
            DaemonPlan::GatewayOnly { port }
        } else {
            let gateway_port = match self.gateway_port {
                Some(p) => Some(p),
                None => if self.gateway {
                    Some(configured_gateway_port)
                } else {
                    None
                },
            };
            DaemonPlan::Full { gateway_port }
        }
    }
}

/// What the daemon reports when its services have ended.
pub fn finished_message(plan: &DaemonPlan) -> (r: &'static str)
    ensures
        r@ == match plan {
            DaemonPlan::GatewayOnly { .. } => "gateway ended"@,
            DaemonPlan::Full { .. } => "daemon ended"@,
        },
{
    match plan {
        DaemonPlan::GatewayOnly { .. } => "gateway ended",
        DaemonPlan::Full { .. } => "daemon ended",
    }
}

/// The address a service listens on for a port: all interfaces.
pub fn listen_address(port: u16) -> (r: String)
    ensures
        r@ == "0.0.0.0:"@ + dec(port as nat),
{
    let mut r = String::from_str("0.0.0.0:");
    push_decimal(&mut r, port as u64);
    r
}

/// Errors of setting up the daemon's state.
pub enum StateSetupError {
    DatabasePathDoesNotExist,
    /// Setting up the database failed; its message.
    DatabaseSetupError(String),
    InvalidDatabaseUrl,
    BlobsStoreError(String),
}

impl StateSetupError {
    pub fn message(&self) -> (r: String)
        ensures
            r@ == match self {
                StateSetupError::DatabasePathDoesNotExist => "Database path does not exist"@,
                StateSetupError::DatabaseSetupError(_) => "Database setup error"@,
                StateSetupError::InvalidDatabaseUrl => "Invalid database URL"@,
                StateSetupError::BlobsStoreError(e) => "Blobs store error: "@ + e@,
            },
    {
        match self {
            StateSetupError::DatabasePathDoesNotExist => String::from_str(
                "Database path does not exist",
            ),
            StateSetupError::DatabaseSetupError(_) => String::from_str("Database setup error"),
            StateSetupError::InvalidDatabaseUrl => String::from_str("Invalid database URL"),
            StateSetupError::BlobsStoreError(e) => {
                let mut r = String::from_str("Blobs store error: ");
                push_str(&mut r, e.as_str());
                r
            },
        }
    }
}

/// What `Url::parse` makes of a text: its serialization, or `None` when
/// the text does not parse.
pub uninterp spec fn url_serialization(text: Seq<char>) -> Option<Seq<char>>;

/// Calls `url::Url::parse` and hands back the parsed URL's serialization
/// (`Url::as_str`); the answer is named, not spelled out.
#[verifier::external_body]
fn parse_url(text: &str) -> (r: Option<String>)
    ensures
        r is None <==> url_serialization(text@) is None,
        r matches Some(u) ==> url_serialization(text@) == Some(u@),
{
    match url::Url::parse(text) {
        Ok(u) => Some(u.as_str().to_string()),
        Err(_) => None,
    }
}

pub open spec fn parsed_or_invalid(text: Seq<char>) -> Result<Seq<char>, StateSetupError> {
    match url_serialization(text) {
        Some(u) => Ok(u),
        None => Err(StateSetupError::InvalidDatabaseUrl),
    }
}

/// The database URL of the daemon, as `Url::parse` serializes it:
/// `sqlite://<path>` for a database file, which must exist, else an
/// in-memory database; `InvalidDatabaseUrl` when the URL does not parse.
pub open spec fn database_url(path: Option<Seq<char>>, exists: bool) -> Result<Seq<char>, StateSetupError> {
    match path {
        Some(p) => if !exists {
            Err(StateSetupError::DatabasePathDoesNotExist)
        } else {
            parsed_or_invalid("sqlite://"@ + p)
        },
        None => parsed_or_invalid("sqlite::memory:"@),
    }
}

/// Chooses the database URL (`path_exists` tells whether the configured
/// database file exists).
pub fn sqlite_url(path: Option<&str>, path_exists: bool) -> (r: Result<String, StateSetupError>)
    ensures
        match (r, database_url(
            match path {
                Some(p) => Some(p@),
                None => None,
            },
            path_exists,
        )) {
            (Ok(u), Ok(v)) => u@ == v,
            (Err(StateSetupError::DatabasePathDoesNotExist), Err(
                StateSetupError::DatabasePathDoesNotExist,
            )) => true,
            (Err(StateSetupError::InvalidDatabaseUrl), Err(StateSetupError::InvalidDatabaseUrl)) => true,
            _ => false,
        },
{
    let text = match path {
        Some(p) => {
            if !path_exists {
                return Err(StateSetupError::DatabasePathDoesNotExist);
            }
            let mut t = String::from_str("sqlite://");
            push_str(&mut t, p);
            t
        },
        None => String::from_str("sqlite::memory:"),
    };
    match parse_url(text.as_str()) {
        Some(u) => Ok(u),
        None => Err(StateSetupError::InvalidDatabaseUrl),
    }
}

/// How the blob store is configured.
pub enum BlobStoreConfig {
    /// The iroh blob store in the daemon's directory.
    Legacy,
    /// A blob store on the local file system, at the given path if any.
    Filesystem { path: Option<String> },
    /// An S3-compatible object store.
    S3 { endpoint: String, bucket: String, region: Option<String> },
}

/// Where the blobs are kept.
pub enum BlobsLocation {
    /// In the given directory.
    Dir(String),
    /// In a fresh temporary directory.
    TempDir,
    /// In memory.
    Memory,
}

pub open spec fn blobs_dir_view(l: BlobsLocation) -> Option<Seq<char>> {
    match l {
        BlobsLocation::Dir(d) => Some(d@),
        _ => None,
    }
}

/// The blobs directory under the daemon's directory.
pub open spec fn default_blobs_dir(jax_dir: Option<Seq<char>>) -> Option<Seq<char>> {
    match jax_dir {
        Some(d) => Some(join_path(d, "blobs"@)),
        None => None,
    }
}

fn default_blobs(jax_dir: Option<&str>) -> (r: BlobsLocation)
    ensures
        blobs_dir_view(r) == default_blobs_dir(
            match jax_dir {
                Some(d) => Some(d@),
                None => None,
            },
        ),
        !(r is Memory),
{
    match jax_dir {
        Some(d) => BlobsLocation::Dir(join_path_str(d, "blobs")),
        None => BlobsLocation::TempDir,
    }
}

/// Where the blob store keeps its blobs: the legacy store in `blobs` under
/// the daemon's directory (a temporary directory without one); a file
/// system store at its path, or where the legacy one would be; an S3 store,
/// until it is supported, in memory.
pub fn blobs_location(config: &BlobStoreConfig, jax_dir: Option<&str>) -> (r: BlobsLocation)
    ensures
        ({
            let jd = match jax_dir {
                Some(d) => Some(d@),
                None => None,
            };
            match config {
                BlobStoreConfig::Legacy => !(r is Memory) && blobs_dir_view(r) == default_blobs_dir(jd),
                BlobStoreConfig::Filesystem { path: Some(p) } => blobs_dir_view(r) == Some(p@),
                BlobStoreConfig::Filesystem { path: None } => !(r is Memory) && blobs_dir_view(r)
                    == default_blobs_dir(jd),
                BlobStoreConfig::S3 { .. } => r is Memory,
            }
        }),
{
    match config {
        BlobStoreConfig::Legacy => default_blobs(jax_dir),
        BlobStoreConfig::Filesystem { path } => match path {
            Some(p) => BlobsLocation::Dir(p.clone()),
            None => default_blobs(jax_dir),
        },
        BlobStoreConfig::S3 { .. } => BlobsLocation::Memory,
    }
}

/// Errors of a peer.
pub enum PeerError {
    /// Shutting the router down failed; its message.
    RouterShutdown(String),
}

impl PeerError {
    pub fn message(&self) -> (r: String)
        ensures
            r@ == match self {
                PeerError::RouterShutdown(e) => "failed to shutdown router: "@ + e@,
            },
    {
        match self {
            PeerError::RouterShutdown(e) => {
                let mut r = String::from_str("failed to shutdown router: ");
                push_str(&mut r, e.as_str());
                r
            },
        }
    }
}

/// Size threshold for generating BAO outboard data (16KB).
pub const OUTBOARD_THRESHOLD: usize = 16384;

/// Blobs larger than the threshold get outboard verification data.
pub fn has_outboard(size: usize) -> (r: bool)
    ensures
        r == (size > 16384),
{
    size > OUTBOARD_THRESHOLD
}

/// Statistics from a recovery operation.
pub struct RecoveryStats {
    /// Number of blobs found in storage
    pub found: usize,
    /// Number of blobs added to metadata
    pub added: usize,
    /// Number of blobs that already existed in metadata
    pub existing: usize,
    /// Number of errors encountered
    pub errors: usize,
}

/// What recovering one blob found.
#[derive(Debug, Clone, Copy, PartialEq, Eq, Structural)]
pub enum RecoveryOutcome {
    /// Its metadata was already there.
    AlreadyPresent,
    /// Its metadata was added.
    Added,
    /// Reading it or adding its metadata failed.
    Failed,
}

/// How many of the outcomes are `o`.
pub open spec fn count_of(outcomes: Seq<RecoveryOutcome>, o: RecoveryOutcome) -> nat
    decreases outcomes.len(),
{
    if outcomes.len() == 0 {
        0
    } else {
        count_of(outcomes.drop_last(), o) + if outcomes.last() == o {
            1nat
        } else {
            0nat
        }
    }
}

proof fn lemma_counts_add_up(outcomes: Seq<RecoveryOutcome>)
    ensures
        count_of(outcomes, RecoveryOutcome::AlreadyPresent) + count_of(outcomes, RecoveryOutcome::Added)
            + count_of(outcomes, RecoveryOutcome::Failed) == outcomes.len(),
    decreases outcomes.len(),
{
    if outcomes.len() > 0 {
        lemma_counts_add_up(outcomes.drop_last());
    }
}

impl Default for RecoveryStats {
    fn default() -> (r: RecoveryStats)
        ensures
            r.found == 0 && r.added == 0 && r.existing == 0 && r.errors == 0,
    {
        RecoveryStats { found: 0, added: 0, existing: 0, errors: 0 }
    }
}

impl RecoveryStats {
    /// The blobs accounted for so far.
    pub open spec fn accounted(self) -> nat {
        (self.added + self.existing + self.errors) as nat
    }

    /// The statistics of a recovery that found `found` blobs and has looked
    /// at none of them yet.
    pub fn begin(found: usize) -> (r: RecoveryStats)
        ensures
            r.found == found && r.added == 0 && r.existing == 0 && r.errors == 0,
    {
        RecoveryStats { found, added: 0, existing: 0, errors: 0 }
    }

    /// Counts the outcome for one more of the blobs found.
    pub fn record(&mut self, outcome: RecoveryOutcome)
        requires
            old(self).accounted() < old(self).found,
        ensures
            final(self).found == old(self).found,
            final(self).accounted() == old(self).accounted() + 1,
            final(self).existing == old(self).existing + if outcome == RecoveryOutcome::AlreadyPresent {
                1int
            } else {
                0int
            },
            final(self).added == old(self).added + if outcome == RecoveryOutcome::Added {
                1int
            } else {
                0int
            },
            final(self).errors == old(self).errors + if outcome == RecoveryOutcome::Failed {
                1int
            } else {
                0int
            },
    {
        match outcome {
            RecoveryOutcome::AlreadyPresent => self.existing = self.existing + 1,
            RecoveryOutcome::Added => self.added = self.added + 1,
            RecoveryOutcome::Failed => self.errors = self.errors + 1,
        }
    }
}

/// The statistics of a recovery with one outcome for each blob found:
/// each counter counts its outcome, and together they account for every
/// blob found.
pub fn tally(outcomes: &Vec<RecoveryOutcome>) -> (r: RecoveryStats)
    ensures
        r.found == outcomes@.len(),
        r.existing == count_of(outcomes@, RecoveryOutcome::AlreadyPresent),
        r.added == count_of(outcomes@, RecoveryOutcome::Added),
        r.errors == count_of(outcomes@, RecoveryOutcome::Failed),
        r.existing + r.added + r.errors == r.found,
{
    let mut stats = RecoveryStats::begin(outcomes.len());
    let mut i: usize = 0;
    while i < outcomes.len()
        invariant
            i <= outcomes@.len(),
            stats.found == outcomes@.len(),
            stats.existing == count_of(outcomes@.take(i as int), RecoveryOutcome::AlreadyPresent),
            stats.added == count_of(outcomes@.take(i as int), RecoveryOutcome::Added),
            stats.errors == count_of(outcomes@.take(i as int), RecoveryOutcome::Failed),
            stats.accounted() == i,
        decreases outcomes.len() - i,
    {
        proof {
            assert(outcomes@.take(i + 1).drop_last() =~= outcomes@.take(i as int));
            lemma_counts_add_up(outcomes@.take(i as int));
        }
        stats.record(outcomes[i]);
        i += 1;
    }
    proof {
        assert(outcomes@.take(outcomes.len() as int) =~= outcomes@);
        lemma_counts_add_up(outcomes@);
    }
    stats
}

/// What recovering one listed blob asks of the metadata store, from whether
/// it already has the blob and what reading the blob's data gave (its
/// length, or `None` when it is missing or could not be read).
pub enum BlobRecovery {
    /// The metadata is there; nothing to do.
    Present,
    /// Insert a metadata row for the blob.
    Insert { size: usize, has_outboard: bool },
    /// The data could not be had.
    Unreadable,
}

pub open spec fn blob_recovery(has_metadata: bool, data_len: Option<usize>) -> BlobRecovery {
    if has_metadata {
        BlobRecovery::Present
    } else {
        match data_len {
            Some(n) => BlobRecovery::Insert { size: n, has_outboard: n > 16384 },
            None => BlobRecovery::Unreadable,
        }
    }
}

/// The outcome of a blob's recovery: present already, added when the
/// metadata row was inserted, failed otherwise.
pub open spec fn outcome_of(plan: BlobRecovery, inserted: bool) -> RecoveryOutcome {
    match plan {
        BlobRecovery::Present => RecoveryOutcome::AlreadyPresent,
        BlobRecovery::Insert { .. } => if inserted {
            RecoveryOutcome::Added
        } else {
            RecoveryOutcome::Failed
        },
        BlobRecovery::Unreadable => RecoveryOutcome::Failed,
    }
}

pub open spec fn blob_outcome(has_metadata: bool, data_len: Option<usize>, inserted: bool) -> RecoveryOutcome {
    outcome_of(blob_recovery(has_metadata, data_len), inserted)
}

/// Decides what to do for one listed blob.
pub fn plan_blob_recovery(has_metadata: bool, data_len: Option<usize>) -> (r: BlobRecovery)
    ensures
        r == blob_recovery(has_metadata, data_len),
{
    if has_metadata {
        BlobRecovery::Present
    } else {
        match data_len {
            Some(n) => BlobRecovery::Insert { size: n, has_outboard: has_outboard(n) },
            None => BlobRecovery::Unreadable,
        }
    }
}

/// The outcome of one blob's recovery, given what was decided for it and,
/// for an insert, whether the insert worked.
pub fn blob_recovery_outcome(plan: &BlobRecovery, inserted: bool) -> (r: RecoveryOutcome)
    ensures
        r == outcome_of(*plan, inserted),
{
    match plan {
        BlobRecovery::Present => RecoveryOutcome::AlreadyPresent,
        BlobRecovery::Insert { .. } => if inserted {
            RecoveryOutcome::Added
        } else {
            RecoveryOutcome::Failed
        },
        BlobRecovery::Unreadable => RecoveryOutcome::Failed,
    }
}

/// One recovery pass over the listed hashes, in order: the outcome of each,
/// and the metadata rows (hash to size) afterwards. `reads[i]` is what
/// reading the `i`-th listed blob gives (its length, or `None`), and
/// `inserted[i]` whether inserting a row for it works.
pub open spec fn recovery_pass(
    hashes: Seq<Seq<char>>,
    rows: Map<Seq<char>, usize>,
    reads: Seq<Option<usize>>,
    inserted: Seq<bool>,
) -> (Seq<RecoveryOutcome>, Map<Seq<char>, usize>)
    decreases hashes.len(),
{
    if hashes.len() == 0 {
        (Seq::empty(), rows)
    } else {
        let (outs, m) = recovery_pass(hashes.drop_last(), rows, reads, inserted);
        let i = hashes.len() - 1;
        let h = hashes.last();
        let o = blob_outcome(m.contains_key(h), reads[i], inserted[i]);
        (outs.push(o), if o == RecoveryOutcome::Added { m.insert(h, reads[i]->0) } else { m })
    }
}

/// Whether the metadata store answered each "do you have it" truthfully:
/// with the rows there before the pass and those the pass added so far.
pub open spec fn answers_follow(
    has_metadata: Seq<bool>,
    hashes: Seq<Seq<char>>,
    rows: Map<Seq<char>, usize>,
    reads: Seq<Option<usize>>,
    inserted: Seq<bool>,
) -> bool {
    &&& has_metadata.len() == hashes.len()
    &&& forall|i: int|
        0 <= i < hashes.len() ==> #[trigger] has_metadata[i] == recovery_pass(
            hashes.take(i),
            rows,
            reads,
            inserted,
        ).1.contains_key(hashes[i])
}

proof fn lemma_pass_grows(
    hashes: Seq<Seq<char>>,
    rows: Map<Seq<char>, usize>,
    reads: Seq<Option<usize>>,
    inserted: Seq<bool>,
    k: int,
)
    requires
        0 <= k <= hashes.len(),
    ensures
        recovery_pass(hashes, rows, reads, inserted).0.len() == hashes.len(),
        recovery_pass(hashes.take(k), rows, reads, inserted).0 == recovery_pass(hashes, rows, reads, inserted).0.take(k),
        forall|h: Seq<char>|
            #[trigger] recovery_pass(hashes.take(k), rows, reads, inserted).1.contains_key(h) ==> recovery_pass(
                hashes,
                rows,
                reads,
                inserted,
            ).1.contains_key(h) && recovery_pass(hashes, rows, reads, inserted).1[h] == recovery_pass(
                hashes.take(k),
                rows,
                reads,
                inserted,
            ).1[h],
    decreases hashes.len(),
{
    if k == hashes.len() {
        assert(hashes.take(k) =~= hashes);
        if hashes.len() > 0 {
            lemma_pass_grows(hashes.drop_last(), rows, reads, inserted, k - 1);
        }
        assert(recovery_pass(hashes, rows, reads, inserted).0.take(k) =~= recovery_pass(hashes, rows, reads, inserted).0);
    } else {
        let init = hashes.drop_last();
        lemma_pass_grows(init, rows, reads, inserted, k);
        assert(init.take(k) =~= hashes.take(k));
        let prev = recovery_pass(init, rows, reads, inserted);
        let all = recovery_pass(hashes, rows, reads, inserted);
        assert(all.0.take(k) =~= prev.0.take(k));
    }
}

proof fn lemma_no_count_none(s: Seq<RecoveryOutcome>, o: RecoveryOutcome)
    requires
        count_of(s, o) == 0,
    ensures
        forall|i: int| 0 <= i < s.len() ==> #[trigger] s[i] != o,
    decreases s.len(),
{
    if s.len() > 0 {
        lemma_no_count_none(s.drop_last(), o);
        assert forall|i: int| 0 <= i < s.len() implies #[trigger] s[i] != o by {
            if i < s.len() - 1 {
                assert(s[i] == s.drop_last()[i]);
            }
        }
    }
}

/// The step of the pass at the `i`-th listed hash.
proof fn lemma_pass_step(
    hashes: Seq<Seq<char>>,
    rows: Map<Seq<char>, usize>,
    reads: Seq<Option<usize>>,
    inserted: Seq<bool>,
    i: int,
)
    requires
        0 <= i < hashes.len(),
    ensures
        ({
            let before = recovery_pass(hashes.take(i), rows, reads, inserted).1;
            let step = recovery_pass(hashes.take(i + 1), rows, reads, inserted);
            let o = blob_outcome(before.contains_key(hashes[i]), reads[i], inserted[i]);
            &&& recovery_pass(hashes, rows, reads, inserted).0[i] == o
            &&& step.1 == (if o == RecoveryOutcome::Added {
                before.insert(hashes[i], reads[i]->0)
            } else {
                before
            })
        }),
{
    let t = hashes.take(i + 1);
    assert(t.drop_last() =~= hashes.take(i));
    assert(t.last() == hashes[i]);
    assert(t.len() - 1 == i);
    lemma_pass_grows(hashes, rows, reads, inserted, i + 1);
    let prev = recovery_pass(hashes.take(i), rows, reads, inserted);
    let before = prev.1;
    let o = blob_outcome(before.contains_key(hashes[i]), reads[i], inserted[i]);
    let step = recovery_pass(t, rows, reads, inserted);
    assert(recovery_pass(t.drop_last(), rows, reads, inserted) == prev);
    assert(step.0 == prev.0.push(o));
    assert(step.0[i] == o) by {
        lemma_pass_grows(hashes.take(i), rows, reads, inserted, 0);
    }
    assert(step.0[i] == recovery_pass(hashes, rows, reads, inserted).0.take(i + 1)[i]);
}

proof fn lemma_clean_pass(
    hashes: Seq<Seq<char>>,
    rows: Map<Seq<char>, usize>,
    reads: Seq<Option<usize>>,
    inserted: Seq<bool>,
)
    requires
        count_of(recovery_pass(hashes, rows, reads, inserted).0, RecoveryOutcome::Failed) == 0,
    ensures
        forall|i: int|
            0 <= i < hashes.len() ==> {
                let (outs, after) = recovery_pass(hashes, rows, reads, inserted);
                &&& after.contains_key(#[trigger] hashes[i])
                &&& outs[i] == RecoveryOutcome::Added ==> after[hashes[i]] == reads[i]->0
            },
{
    let (outs, after) = recovery_pass(hashes, rows, reads, inserted);
    lemma_pass_grows(hashes, rows, reads, inserted, 0);
    lemma_no_count_none(outs, RecoveryOutcome::Failed);
    assert forall|i: int| 0 <= i < hashes.len() implies {
        &&& after.contains_key(#[trigger] hashes[i])
        &&& outs[i] == RecoveryOutcome::Added ==> after[hashes[i]] == reads[i]->0
    } by {
        lemma_pass_step(hashes, rows, reads, inserted, i);
        lemma_pass_grows(hashes, rows, reads, inserted, i + 1);
        let step = recovery_pass(hashes.take(i + 1), rows, reads, inserted).1;
        assert(outs[i] != RecoveryOutcome::Failed);
        assert(step.contains_key(hashes[i]));
    }
}

proof fn lemma_pass_over_present(
    hashes: Seq<Seq<char>>,
    rows: Map<Seq<char>, usize>,
    reads: Seq<Option<usize>>,
    inserted: Seq<bool>,
)
    requires
        forall|i: int| 0 <= i < hashes.len() ==> rows.contains_key(#[trigger] hashes[i]),
    ensures
        count_of(recovery_pass(hashes, rows, reads, inserted).0, RecoveryOutcome::AlreadyPresent)
            == hashes.len(),
        count_of(recovery_pass(hashes, rows, reads, inserted).0, RecoveryOutcome::Added) == 0,
        count_of(recovery_pass(hashes, rows, reads, inserted).0, RecoveryOutcome::Failed) == 0,
        recovery_pass(hashes, rows, reads, inserted).1 == rows,
    decreases hashes.len(),
{
    if hashes.len() > 0 {
        let init = hashes.drop_last();
        assert forall|i: int| 0 <= i < init.len() implies rows.contains_key(#[trigger] init[i]) by {
            assert(init[i] == hashes[i]);
        }
        lemma_pass_over_present(init, rows, reads, inserted);
        assert(hashes.last() == hashes[hashes.len() - 1]);
        let all = recovery_pass(hashes, rows, reads, inserted);
        assert(all.0.drop_last() == recovery_pass(init, rows, reads, inserted).0);
    }
}

/// Recovery is idempotent: after a pass with no errors, every listed blob
/// has a metadata row, each blob the pass added has one with the size read
/// for it, and a second pass over the same listing finds every blob already
/// present, adds nothing and changes no row, whatever its reads and inserts
/// would give.
pub proof fn lemma_recovery_repeat(
    hashes: Seq<Seq<char>>,
    rows: Map<Seq<char>, usize>,
    reads: Seq<Option<usize>>,
    inserted: Seq<bool>,
    reads_again: Seq<Option<usize>>,
    inserted_again: Seq<bool>,
)
    requires
        count_of(recovery_pass(hashes, rows, reads, inserted).0, RecoveryOutcome::Failed) == 0,
    ensures
        ({
            let (outs, after) = recovery_pass(hashes, rows, reads, inserted);
            let again = recovery_pass(hashes, after, reads_again, inserted_again);
            &&& forall|i: int|
                0 <= i < hashes.len() ==> after.contains_key(#[trigger] hashes[i])
                    && (outs[i] == RecoveryOutcome::Added ==> after[hashes[i]] == reads[i]->0)
            &&& count_of(again.0, RecoveryOutcome::AlreadyPresent) == hashes.len()
            &&& count_of(again.0, RecoveryOutcome::Added) == 0
            &&& count_of(again.0, RecoveryOutcome::Failed) == 0
            &&& again.1 == after
        }),
{
    lemma_clean_pass(hashes, rows, reads, inserted);
    let after = recovery_pass(hashes, rows, reads, inserted).1;
    lemma_pass_over_present(hashes, after, reads_again, inserted_again);
}

/// The outcome of each listed blob, from what the metadata store, the
/// object storage and the inserts answered for it.
pub open spec fn pass_outcomes(
    has_metadata: Seq<bool>,
    reads: Seq<Option<usize>>,
    inserted: Seq<bool>,
) -> Seq<RecoveryOutcome> {
    Seq::new(has_metadata.len(), |i: int| blob_outcome(has_metadata[i], reads[i], inserted[i]))
}

/// The metadata rows a pass asks to insert, in order: hash, size and
/// whether the blob gets outboard data.
pub open spec fn insert_requests(
    hashes: Seq<Seq<char>>,
    has_metadata: Seq<bool>,
    reads: Seq<Option<usize>>,
) -> Seq<(Seq<char>, usize, bool)>
    decreases hashes.len(),
{
    if hashes.len() == 0 {
        Seq::empty()
    } else {
        let i = hashes.len() - 1;
        let prev = insert_requests(hashes.drop_last(), has_metadata, reads);
        match blob_recovery(has_metadata[i], reads[i]) {
            BlobRecovery::Insert { size, has_outboard } => prev.push((hashes[i], size, has_outboard)),
            _ => prev,
        }
    }
}

pub open spec fn request_views(v: Seq<(String, usize, bool)>) -> Seq<(Seq<char>, usize, bool)> {
    Seq::new(v.len(), |i: int| (v[i].0@, v[i].1, v[i].2))
}

pub open spec fn string_seq_views(v: Seq<String>) -> Seq<Seq<char>> {
    Seq::new(v.len(), |i: int| v[i]@)
}

/// A recovery pass over the listed hashes (`listed`), from what was
/// answered for each: whether the metadata store has it, what reading its
/// data gave, and whether inserting its row worked. It counts the outcomes
/// and gives the rows it asked to insert.
pub fn recover_listed(
    listed: &Vec<String>,
    has_metadata: &Vec<bool>,
    reads: &Vec<Option<usize>>,
    inserted: &Vec<bool>,
) -> (r: (RecoveryStats, Vec<(String, usize, bool)>))
    requires
        has_metadata@.len() == listed@.len(),
        reads@.len() == listed@.len(),
        inserted@.len() == listed@.len(),
    ensures
        r.0.found == listed@.len(),
        r.0.existing == count_of(pass_outcomes(has_metadata@, reads@, inserted@), RecoveryOutcome::AlreadyPresent),
        r.0.added == count_of(pass_outcomes(has_metadata@, reads@, inserted@), RecoveryOutcome::Added),
        r.0.errors == count_of(pass_outcomes(has_metadata@, reads@, inserted@), RecoveryOutcome::Failed),
        request_views(r.1@) == insert_requests(string_seq_views(listed@), has_metadata@, reads@),
{
    let ghost hs = string_seq_views(listed@);
    let mut outcomes: Vec<RecoveryOutcome> = Vec::new();
    let mut requests: Vec<(String, usize, bool)> = Vec::new();
    let mut i: usize = 0;
    while i < listed.len()
        invariant
            i <= listed@.len(),
            hs == string_seq_views(listed@),
            has_metadata@.len() == listed@.len(),
            reads@.len() == listed@.len(),
            inserted@.len() == listed@.len(),
            outcomes@ == pass_outcomes(has_metadata@, reads@, inserted@).take(i as int),
            request_views(requests@) == insert_requests(hs.take(i as int), has_metadata@, reads@),
        decreases listed.len() - i,
    {
        let plan = plan_blob_recovery(has_metadata[i], reads[i]);
        let ghost before = request_views(requests@);
        proof {
            assert(hs.take(i + 1).drop_last() =~= hs.take(i as int));
            assert(hs.take(i + 1)[i as int] == listed@[i as int]@);
        }
        match &plan {
            BlobRecovery::Insert { size, has_outboard } => {
                requests.push((listed[i].clone(), *size, *has_outboard));
                assert(request_views(requests@) =~= before.push((listed@[i as int]@, *size, *has_outboard)));
            },
            _ => {},
        }
        let o = blob_recovery_outcome(&plan, inserted[i]);
        outcomes.push(o);
        proof {
            assert(outcomes@ =~= pass_outcomes(has_metadata@, reads@, inserted@).take(i + 1));
        }
        i += 1;
    }
    proof {
        assert(hs.take(listed@.len() as int) =~= hs);
        assert(pass_outcomes(has_metadata@, reads@, inserted@).take(listed@.len() as int)
            =~= pass_outcomes(has_metadata@, reads@, inserted@));
    }
    let stats = tally(&outcomes);
    (stats, requests)
}

/// When the metadata store answers truthfully, a recovery pass computes
/// what the pass model gives: the same outcome for every listed blob.
pub proof fn lemma_answers_give_pass(
    has_metadata: Seq<bool>,
    hashes: Seq<Seq<char>>,
    rows: Map<Seq<char>, usize>,
    reads: Seq<Option<usize>>,
    inserted: Seq<bool>,
)
    requires
        answers_follow(has_metadata, hashes, rows, reads, inserted),
    ensures
        pass_outcomes(has_metadata, reads, inserted) == recovery_pass(hashes, rows, reads, inserted).0,
{
    lemma_pass_grows(hashes, rows, reads, inserted, 0);
    assert forall|i: int| 0 <= i < hashes.len() implies #[trigger] pass_outcomes(has_metadata, reads, inserted)[i]
        == recovery_pass(hashes, rows, reads, inserted).0[i] by {
        lemma_pass_step(hashes, rows, reads, inserted, i);
        assert(has_metadata[i] == recovery_pass(hashes.take(i), rows, reads, inserted).1.contains_key(hashes[i]));
    }
    assert(pass_outcomes(has_metadata, reads, inserted) =~= recovery_pass(hashes, rows, reads, inserted).0);
}

/// What `recover_listed` counts over two runs on the same listing, each
/// answered truthfully by the metadata store: when the first has no errors,
/// the second finds every listed blob already present and adds none, so its
/// statistics are found == existing, added == errors == 0.
pub proof fn lemma_recover_listed_twice(
    hashes: Seq<Seq<char>>,
    rows: Map<Seq<char>, usize>,
    has_metadata: Seq<bool>,
    reads: Seq<Option<usize>>,
    inserted: Seq<bool>,
    has_again: Seq<bool>,
    reads_again: Seq<Option<usize>>,
    inserted_again: Seq<bool>,
)
    requires
        answers_follow(has_metadata, hashes, rows, reads, inserted),
        count_of(pass_outcomes(has_metadata, reads, inserted), RecoveryOutcome::Failed) == 0,
        answers_follow(
            has_again,
            hashes,
            recovery_pass(hashes, rows, reads, inserted).1,
            reads_again,
            inserted_again,
        ),
    ensures
        count_of(pass_outcomes(has_again, reads_again, inserted_again), RecoveryOutcome::AlreadyPresent)
            == hashes.len(),
        count_of(pass_outcomes(has_again, reads_again, inserted_again), RecoveryOutcome::Added) == 0,
        count_of(pass_outcomes(has_again, reads_again, inserted_again), RecoveryOutcome::Failed) == 0,
{
    lemma_answers_give_pass(has_metadata, hashes, rows, reads, inserted);
    lemma_recovery_repeat(hashes, rows, reads, inserted, reads_again, inserted_again);
    let after = recovery_pass(hashes, rows, reads, inserted).1;
    lemma_answers_give_pass(has_again, hashes, after, reads_again, inserted_again);
}

/// The gateway port of a full daemon: `--gateway-port` wins whatever
/// `--gateway` says; without it, `--gateway` runs the gateway on the
/// configured port, and neither runs no gateway.
pub proof fn lemma_full_gateway_port(d: Daemon, configured: u16)
    ensures
        d.gateway_port matches Some(p) ==> full_gateway_port(d, configured) == Some(p),
        d.gateway_port is None && d.gateway ==> full_gateway_port(d, configured) == Some(configured),
        d.gateway_port is None && !d.gateway ==> full_gateway_port(d, configured) is None,
{
}

} // verus!
