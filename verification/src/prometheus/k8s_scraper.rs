//! Scraping the discovered targets and handing on what they tell.
use std::collections::VecDeque;

use vstd::prelude::*;

use super::k8s_discovery::{
    discovered, limit_valid, DiscoveredTarget, K8sServiceDiscovery, KubernetesSdConfig,
    MetadataLabelsConfig, Snapshot, TargetView, target_views,
};
use super::metrics_enrichment::{add_metadata_to_metric, add_tag, enriched, with_tag};
use super::uri::{parse_uri, uri_of, UriParts, UriView};
use crate::metric::{metric_views, TagMap, Metric, MetricKind, MetricValue, MetricView};
use crate::number::{decimal, decimal_u64};
use crate::text::copy;

verus! {

// ---------------------------------------------------------------------------
// Batches that wait to be sent
// ---------------------------------------------------------------------------
/// What one scrape of one target gave.
#[derive(Debug)]
pub struct ScrapedBatch<D> {
    /// The target's address.
    pub target_url: String,
    /// The metrics.
    pub events: Vec<Metric<D>>,
    /// How many metrics there are.
    pub event_count: usize,
}

/// A batch that waits to be sent.
#[derive(Debug)]
pub struct QueuedBatch<D> {
    /// The batch.
    pub batch: ScrapedBatch<D>,
    /// When it was queued, in nanoseconds on a clock that never goes back.
    pub enqueued_at: u128,
}

/// Batches in the order in which they came. Where there is no room, the oldest
/// gives way.
#[derive(Debug)]
pub struct BatchQueue<D> {
    capacity: usize,
    items: VecDeque<QueuedBatch<D>>,
}

/// What becomes of a wait for a batch.
#[derive(Debug)]
pub enum PopStep<D> {
    /// A batch came.
    Got(QueuedBatch<D>),
    /// Nothing will come.
    Finished,
    /// Nothing is there yet.
    Wait,
}

/// The waiting batches that stay when one more comes: all of them, or all but the
/// oldest where there is no room.
pub open spec fn made_room<T>(items: Seq<T>, capacity: nat) -> Seq<T> {
    if items.len() >= capacity && items.len() > 0 {
        items.drop_first()
    } else {
        items
    }
}

/// What waits after one more came, and what had to give way.
pub open spec fn after_push<T>(items: Seq<T>, capacity: nat, b: T) -> (Seq<T>, Option<T>) {
    (
        made_room(items, capacity).push(b),
        if items.len() >= capacity && items.len() > 0 {
            Some(items.first())
        } else {
            None
        },
    )
}

/// What waits after one was taken, and the one that was.
pub open spec fn after_pop<T>(items: Seq<T>) -> (Seq<T>, Option<T>) {
    if items.len() > 0 {
        (items.drop_first(), Some(items.first()))
    } else {
        (items, None)
    }
}

/// That a wait for a batch told what was taken, or whether one may still come.
pub open spec fn wait_tells<D>(
    r: PopStep<D>,
    taken: Option<QueuedBatch<D>>,
    shutdown_seen: bool,
) -> bool {
    match taken {
        Some(b) => r == PopStep::Got(b),
        None => if shutdown_seen {
            r is Finished
        } else {
            r is Wait
        },
    }
}

impl<D> BatchQueue<D> {
    /// The waiting batches, the oldest first.
    pub closed spec fn items(&self) -> Seq<QueuedBatch<D>> {
        self.items@
    }

    /// How many batches may wait.
    pub closed spec fn limit(&self) -> usize {
        self.capacity
    }

    /// An empty queue for `capacity` batches.
    pub fn new(capacity: usize) -> (r: BatchQueue<D>)
        ensures
            r.items() == Seq::<QueuedBatch<D>>::empty(),
            r.limit() == capacity,
    {
        BatchQueue { capacity, items: VecDeque::new() }
    }

    /// How many batches may wait.
    pub fn capacity(&self) -> (r: usize)
        ensures
            r == self.limit(),
    {
        self.capacity
    }

    /// Changes how many batches may wait. None that waits is dropped.
    pub fn set_capacity(&mut self, capacity: usize)
        ensures
            final(self).limit() == capacity,
            final(self).items() == old(self).items(),
    {
        self.capacity = capacity;
    }

    /// Queues a batch, and returns the oldest one where it had to give way.
    pub fn push(&mut self, batch: ScrapedBatch<D>, now: u128) -> (r: Option<QueuedBatch<D>>)
        ensures
            final(self).limit() == old(self).limit(),
            final(self).items() == made_room(old(self).items(), old(self).limit() as nat).push(
                QueuedBatch { batch, enqueued_at: now },
            ),
            match r {
                Some(evicted) => old(self).items().len() >= old(self).limit()
                    && old(self).items().len() > 0 && evicted == old(self).items().first(),
                None => old(self).items().len() < old(self).limit() || old(self).items().len() == 0,
            },
            (final(self).items(), r) == after_push(
                old(self).items(),
                old(self).limit() as nat,
                (QueuedBatch { batch, enqueued_at: now }),
            ),
    {
        let evicted = if self.items.len() >= self.capacity {
            self.items.pop_front()
        } else {
            None
        };
        assert(self.items@ =~= made_room(old(self).items(), old(self).limit() as nat));
        self.items.push_back(QueuedBatch { batch, enqueued_at: now });
        evicted
    }

    /// Takes the oldest batch.
    pub fn try_pop(&mut self) -> (r: Option<QueuedBatch<D>>)
        ensures
            final(self).limit() == old(self).limit(),
            match r {
                Some(b) => old(self).items().len() > 0 && b == old(self).items().first()
                    && final(self).items() == old(self).items().drop_first(),
                None => old(self).items().len() == 0 && final(self).items() == old(self).items(),
            },
            (final(self).items(), r) == after_pop(old(self).items()),
    {
        let r = self.items.pop_front();
        proof {
            if old(self).items().len() > 0 {
                assert(self.items@ =~= old(self).items().drop_first());
            }
        }
        r
    }

    /// Takes the oldest batch, or tells whether one may still come: none does once
    /// the shutdown was seen.
    pub fn pop(&mut self, shutdown_seen: bool) -> (r: PopStep<D>)
        ensures
            final(self).limit() == old(self).limit(),
            match r {
                PopStep::Got(b) => old(self).items().len() > 0 && b == old(self).items().first()
                    && final(self).items() == old(self).items().drop_first(),
                PopStep::Finished => old(self).items().len() == 0 && shutdown_seen
                    && final(self).items() == old(self).items(),
                PopStep::Wait => old(self).items().len() == 0 && !shutdown_seen
                    && final(self).items() == old(self).items(),
            },
            final(self).items() == after_pop(old(self).items()).0,
            wait_tells(r, after_pop(old(self).items()).1, shutdown_seen),
    {
        match self.try_pop() {
            Some(b) => PopStep::Got(b),
            None => if shutdown_seen {
                PopStep::Finished
            } else {
                PopStep::Wait
            },
        }
    }
}

/// A queue that holds no more than it may still does so after a batch was queued,
/// and one that holds more does not grow.
pub proof fn law_queue_is_bounded<T>(items: Seq<T>, capacity: nat, b: T)
    ensures
        0 < capacity && items.len() <= capacity ==> made_room(items, capacity).push(b).len()
            <= capacity,
        items.len() >= capacity && items.len() > 0 ==> made_room(items, capacity).push(b).len()
            == items.len(),
{
}

/// Only the oldest batch ever gives way: what stays keeps its order, and the new
/// batch comes last.
pub proof fn law_queue_keeps_order<T>(items: Seq<T>, capacity: nat, b: T)
    ensures
        made_room(items, capacity).push(b).last() == b,
        made_room(items, capacity).is_suffix_of(items),
        items.len() <= made_room(items, capacity).len() + 1,
{
    if items.len() >= capacity && items.len() > 0 {
        assert(items.drop_first() =~= items.subrange(1, items.len() as int));
    } else {
        assert(items =~= items.subrange(0, items.len() as int));
    }
}

// ---------------------------------------------------------------------------
// Workers that send batches
// ---------------------------------------------------------------------------
/// What a worker was told.
#[derive(Clone, Copy, Debug, PartialEq, Eq, Structural)]
pub enum WorkerEvent {
    /// It may begin.
    Started,
    /// The number of workers changed.
    DesiredChanged,
    /// The number of workers will not change any more.
    DesiredClosed,
    /// The scraper shuts down while the worker is idle.
    ShutDown,
    /// No batch will come any more.
    QueueFinished,
    /// A batch was dealt with.
    BatchDone,
}

/// What a worker does next.
#[derive(Clone, Copy, Debug, PartialEq, Eq, Structural)]
pub enum WorkerAction {
    /// It waits for the number of workers to change, or for the shutdown.
    AwaitDesired,
    /// It takes a batch and sends it.
    TakeBatch,
    /// It ends.
    Stop,
}

/// What worker number `index` does next, where `desired` workers are wanted.
pub fn next_worker_action(index: usize, desired: usize, event: WorkerEvent) -> (r: WorkerAction)
    ensures
        r == (match event {
            WorkerEvent::DesiredClosed
            | WorkerEvent::ShutDown
            | WorkerEvent::QueueFinished => WorkerAction::Stop,
            _ => if index >= desired {
                WorkerAction::AwaitDesired
            } else {
                WorkerAction::TakeBatch
            },
        }),
        r == action_of_worker(index as int, desired as int, event),
{
    match event {
        WorkerEvent::DesiredClosed
        | WorkerEvent::ShutDown
        | WorkerEvent::QueueFinished => WorkerAction::Stop,
        _ => if index >= desired {
            WorkerAction::AwaitDesired
        } else {
            WorkerAction::TakeBatch
        },
    }
}

/// How sending a batch ended.
#[derive(Clone, Copy, Debug, PartialEq, Eq, Structural)]
pub enum SendOutcome {
    /// It was sent.
    Sent,
    /// It could not be sent.
    Failed,
    /// It took too long, and the rest is dropped.
    TimedOut,
}

/// What there is to say of how sending a batch ended.
#[derive(Clone, Copy, Debug, PartialEq, Eq, Structural)]
pub enum SendReport {
    /// Nothing.
    Nothing,
    /// That it was slow.
    Slow,
    /// That it failed.
    Failed,
    /// That it took too long.
    TimedOut,
}

/// What there is to say of how sending a batch ended. A batch that waited or was
/// sent for two seconds or more was slow.
pub fn send_report(outcome: SendOutcome, queue_wait_nanos: u128, send_nanos: u128) -> (r:
    SendReport)
    ensures
        r == (match outcome {
            SendOutcome::Sent => if queue_wait_nanos >= 2_000_000_000 || send_nanos
                >= 2_000_000_000 {
                SendReport::Slow
            } else {
                SendReport::Nothing
            },
            SendOutcome::Failed => SendReport::Failed,
            SendOutcome::TimedOut => SendReport::TimedOut,
        }),
        r == report_of(outcome, queue_wait_nanos as int, send_nanos as int),
{
    match outcome {
        SendOutcome::Sent => if queue_wait_nanos >= 2_000_000_000 || send_nanos >= 2_000_000_000 {
            SendReport::Slow
        } else {
            SendReport::Nothing
        },
        SendOutcome::Failed => SendReport::Failed,
        SendOutcome::TimedOut => SendReport::TimedOut,
    }
}

// ---------------------------------------------------------------------------
// The scraper
// ---------------------------------------------------------------------------
/// Which tags a scrape adds, besides what is known of the target.
#[derive(Debug)]
pub struct ScrapeOptions {
    /// Whether values that a metric has stay.
    pub honor_labels: bool,
    /// The tag that names the host and port.
    pub instance_tag: Option<String>,
    /// The tag that names the address.
    pub endpoint_tag: Option<String>,
}

/// The configured limits, each of them at least 1.
#[derive(Debug)]
struct Limits {
    send_queue_capacity: Option<usize>,
    send_worker_count: Option<usize>,
    scrape_concurrency: Option<usize>,
    send_timeout_secs: u64,
}

impl Limits {
    #[verifier::type_invariant]
    spec fn valid(self) -> bool {
        &&& limit_valid(self.send_queue_capacity)
        &&& limit_valid(self.send_worker_count)
        &&& limit_valid(self.scrape_concurrency)
        &&& self.send_timeout_secs > 0
    }
}

/// Scrapes the discovered targets.
#[derive(Debug)]
pub struct K8sScraper {
    discovery: K8sServiceDiscovery,
    options: ScrapeOptions,
    limits: Limits,
}

/// How many batches may wait for that many targets.
pub open spec fn queue_capacity_for(target_count: nat) -> usize {
    if target_count <= 500 {
        16
    } else if target_count <= 1_000 {
        24
    } else {
        32
    }
}

/// How many of that many targets are scraped at once.
pub open spec fn concurrency_for(target_count: nat) -> usize {
    if target_count <= 500 {
        32
    } else if target_count <= 1_000 {
        96
    } else {
        192
    }
}

/// How many workers send the batches of that many targets.
pub open spec fn workers_for(target_count: nat) -> usize {
    if target_count <= 1_000 {
        4
    } else {
        6
    }
}

/// The limit that holds: the configured one, or else what follows from the targets.
pub open spec fn limit_in_force(configured: Option<usize>, otherwise: usize) -> usize {
    match configured {
        Some(n) => n,
        None => otherwise,
    }
}

/// What one round of scraping does.
#[derive(Debug)]
pub struct TickPlan {
    /// How many batches may wait.
    pub queue_capacity: usize,
    /// How many workers send.
    pub send_workers: usize,
    /// How many targets are scraped at once.
    pub scrape_concurrency: usize,
    /// The targets.
    pub targets: Vec<DiscoveredTarget>,
}

/// That a round of scraping keeps to the limits that hold for its targets.
pub open spec fn plan_fits(
    p: TickPlan,
    limits: (Option<usize>, Option<usize>, Option<usize>),
    targets: nat,
) -> bool {
    &&& p.targets@.len() == targets
    &&& p.queue_capacity == limit_in_force(limits.0, queue_capacity_for(targets))
    &&& p.send_workers == limit_in_force(limits.1, workers_for(targets))
    &&& p.scrape_concurrency == limit_in_force(limits.2, concurrency_for(targets))
}

impl K8sScraper {
    /// The discovery whose targets are scraped.
    pub closed spec fn discovery(&self) -> K8sServiceDiscovery {
        self.discovery
    }

    /// Which tags a scrape adds.
    pub closed spec fn options(&self) -> ScrapeOptions {
        self.options
    }

    /// The configured limits: batches that wait, workers, targets at once.
    pub closed spec fn limits(&self) -> (Option<usize>, Option<usize>, Option<usize>) {
        (
            self.limits.send_queue_capacity,
            self.limits.send_worker_count,
            self.limits.scrape_concurrency,
        )
    }

    /// How long sending one batch may take, in seconds.
    pub closed spec fn send_timeout(&self) -> u64 {
        self.limits.send_timeout_secs
    }

    /// How many batches may wait, where nothing is configured.
    pub fn default_send_queue_capacity(target_count: usize) -> (r: usize)
        ensures
            r == queue_capacity_for(target_count as nat),
            r > 0,
    {
        if target_count <= 500 {
            16
        } else if target_count <= 1_000 {
            24
        } else {
            32
        }
    }

    /// How many targets are scraped at once, where nothing is configured.
    pub fn default_scrape_concurrency(target_count: usize) -> (r: usize)
        ensures
            r == concurrency_for(target_count as nat),
            r > 0,
    {
        if target_count <= 500 {
            32
        } else if target_count <= 1_000 {
            96
        } else {
            192
        }
    }

    /// How many workers send, where nothing is configured.
    pub fn default_send_worker_count(target_count: usize) -> (r: usize)
        ensures
            r == workers_for(target_count as nat),
            r > 0,
    {
        if target_count <= 1_000 {
            4
        } else {
            6
        }
    }

    /// How many batches may wait.
    pub fn effective_send_queue_capacity(&self, target_count: usize) -> (r: usize)
        ensures
            r == (match self.limits().0 {
                Some(n) => n,
                None => queue_capacity_for(target_count as nat),
            }),
            r == limit_in_force(self.limits().0, queue_capacity_for(target_count as nat)),
            r > 0,
    {
        proof {
            use_type_invariant(&self.limits);
        }
        match self.limits.send_queue_capacity {
            Some(n) => n,
            None => Self::default_send_queue_capacity(target_count),
        }
    }

    /// How many workers send.
    pub fn effective_send_worker_count(&self, target_count: usize) -> (r: usize)
        ensures
            r == (match self.limits().1 {
                Some(n) => n,
                None => workers_for(target_count as nat),
            }),
            r == limit_in_force(self.limits().1, workers_for(target_count as nat)),
            r > 0,
    {
        proof {
            use_type_invariant(&self.limits);
        }
        match self.limits.send_worker_count {
            Some(n) => n,
            None => Self::default_send_worker_count(target_count),
        }
    }

    /// How many targets are scraped at once.
    pub fn effective_scrape_concurrency(&self, target_count: usize) -> (r: usize)
        ensures
            r == (match self.limits().2 {
                Some(n) => n,
                None => concurrency_for(target_count as nat),
            }),
            r == limit_in_force(self.limits().2, concurrency_for(target_count as nat)),
            r > 0,
    {
        proof {
            use_type_invariant(&self.limits);
        }
        match self.limits.scrape_concurrency {
            Some(n) => n,
            None => Self::default_scrape_concurrency(target_count),
        }
    }

    /// How many workers are ever wanted.
    pub fn send_worker_spawn_limit(&self) -> (r: usize)
        ensures
            r == (match self.limits().1 {
                Some(n) => n,
                None => 6,
            }),
            r == limit_in_force(self.limits().1, 6),
            r > 0,
    {
        proof {
            use_type_invariant(&self.limits);
        }
        match self.limits.send_worker_count {
            Some(n) => n,
            None => 6,
        }
    }

    /// A scraper of the targets that the configuration finds, beginning with those
    /// of `snapshot`.
    pub fn new(k8s_config: KubernetesSdConfig, snapshot: &Snapshot, options: ScrapeOptions) -> (r:
        K8sScraper)
        requires
            k8s_config.limits_valid(),
        ensures
            r.discovery().config() == k8s_config,
            r.discovery().targets() == discovered(k8s_config, *snapshot),
            r.options() == options,
            r.limits() == (
                k8s_config.send_queue_capacity,
                k8s_config.send_worker_count,
                k8s_config.scrape_concurrency,
            ),
            r.send_timeout() == k8s_config.send_timeout_secs,
    {
        let limits = Limits {
            send_queue_capacity: k8s_config.send_queue_capacity,
            send_worker_count: k8s_config.send_worker_count,
            scrape_concurrency: k8s_config.scrape_concurrency,
            send_timeout_secs: k8s_config.send_timeout_secs,
        };
        K8sScraper { discovery: K8sServiceDiscovery::new(k8s_config, snapshot), options, limits }
    }

    /// How long sending one batch may take, in seconds.
    pub fn send_timeout_secs(&self) -> (r: u64)
        ensures
            r == self.send_timeout(),
            r > 0,
    {
        proof {
            use_type_invariant(&self.limits);
        }
        self.limits.send_timeout_secs
    }

    /// Looks for targets in `snapshot`.
    pub fn refresh(&mut self, snapshot: &Snapshot)
        ensures
            final(self).discovery().config() == old(self).discovery().config(),
            final(self).discovery().targets() == discovered(
                old(self).discovery().config(),
                *snapshot,
            ),
            final(self).options() == old(self).options(),
            final(self).limits() == old(self).limits(),
            final(self).send_timeout() == old(self).send_timeout(),
    {
        self.discovery.refresh(snapshot);
    }

    /// What one round of scraping does: the limits follow the number of targets.
    pub fn tick(&self) -> (r: TickPlan)
        ensures
            target_views(r.targets@) == self.discovery().targets(),
            r.queue_capacity == (match self.limits().0 {
                Some(n) => n,
                None => queue_capacity_for(self.discovery().targets().len()),
            }),
            r.send_workers == (match self.limits().1 {
                Some(n) => n,
                None => workers_for(self.discovery().targets().len()),
            }),
            r.scrape_concurrency == (match self.limits().2 {
                Some(n) => n,
                None => concurrency_for(self.discovery().targets().len()),
            }),
            r.queue_capacity > 0,
            r.send_workers > 0,
            r.scrape_concurrency > 0,
            plan_fits(r, self.limits(), self.discovery().targets().len()),
    {
        let targets = self.discovery.get_targets();
        let n: usize = targets.len();
        assert(n == target_views(targets@).len());
        TickPlan {
            queue_capacity: self.effective_send_queue_capacity(n),
            send_workers: self.effective_send_worker_count(n),
            scrape_concurrency: self.effective_scrape_concurrency(n),
            targets,
        }
    }

    /// Begins to scrape a target: the request that has to be sent, or what there is
    /// to hand on where the target's address is none.
    pub fn scrape_target<D>(&self, target: DiscoveredTarget) -> (r: ScrapeStart<D>)
        ensures
            match r {
                ScrapeStart::Request(s) => uri_of(target@.url) == Some(s.uri()) && s.target()
                    == target@ && s.stage() is Response,
                ScrapeStart::Finished(b) => uri_of(target@.url) is None && b@ == down_batch::<D>(
                    target@,
                    self.discovery().config().metadata_labels,
                ),
            },
    {
        match parse_uri(target.url.as_str()) {
            Some(uri) => ScrapeStart::Request(Scrape { target, uri, stage: Stage::Response }),
            None => ScrapeStart::Finished(down(&target, self.discovery.metadata_labels())),
        }
    }

    /// Goes on with a scrape whose request went to `request_uri`, the target's address
    /// with the configured query.
    pub fn scrape_step<D>(
        &self,
        scrape: &mut Scrape,
        request_uri: &UriParts,
        event: ScrapeEvent<D>,
    ) -> (r: ScrapeAction<D>)
        ensures
            final(scrape).target() == old(scrape).target(),
            final(scrape).uri() == old(scrape).uri(),
            final(scrape).stage() == next_stage(old(scrape).stage(), event),
            action_fits(
                r,
                old(scrape).stage(),
                event,
                old(scrape).target(),
                request_uri@,
                self.options(),
                self.discovery().config().metadata_labels,
            ),
    {
        let config = self.discovery.metadata_labels();
        match (scrape.stage, event) {
            (Stage::Response, ScrapeEvent::Head { status }) => if status == 200 {
                scrape.stage = Stage::Body;
                ScrapeAction::ReadBody
            } else {
                scrape.stage = Stage::Done;
                ScrapeAction::Finish(down(&scrape.target, config))
            },
            (Stage::Body, ScrapeEvent::BodyRead) => {
                scrape.stage = Stage::Decoding;
                ScrapeAction::Decode
            },
            (Stage::Decoding, ScrapeEvent::Decoded) => {
                scrape.stage = Stage::Parsing;
                ScrapeAction::Parse
            },
            (Stage::Parsing, ScrapeEvent::Parsed { events }) => {
                scrape.stage = Stage::Done;
                ScrapeAction::Finish(
                    finish_scrape(&scrape.target, events, request_uri, &self.options, config),
                )
            },
            (Stage::Done, _) => ScrapeAction::Nothing,
            (_, _) => {
                scrape.stage = Stage::Done;
                ScrapeAction::Finish(down(&scrape.target, config))
            },
        }
    }
}

// ---------------------------------------------------------------------------
// One scrape
// ---------------------------------------------------------------------------
/// How far a scrape has come.
#[derive(Clone, Copy, Debug, PartialEq, Eq, Structural)]
pub enum Stage {
    /// The response is awaited.
    Response,
    /// The body is awaited.
    Body,
    /// The body is decoded.
    Decoding,
    /// The metrics are parsed.
    Parsing,
    /// The scrape has ended.
    Done,
}

/// A scrape under way.
#[derive(Debug)]
pub struct Scrape {
    target: DiscoveredTarget,
    uri: UriParts,
    stage: Stage,
}

impl Scrape {
    /// The target.
    pub closed spec fn target(&self) -> TargetView {
        self.target@
    }

    /// How far the scrape has come.
    pub closed spec fn stage(&self) -> Stage {
        self.stage
    }

    /// The parts of the target's address.
    pub closed spec fn uri(&self) -> UriView {
        self.uri@
    }

    /// The parts of the target's address, to which the request goes.
    pub fn target_uri(&self) -> (r: &UriParts)
        ensures
            r@ == self.uri(),
    {
        &self.uri
    }
}

/// How a scrape begins.
#[derive(Debug)]
pub enum ScrapeStart<D> {
    /// A `GET` request has to be sent that accepts `text/plain`, also zipped.
    Request(Scrape),
    /// There is nothing to request.
    Finished(ScrapedBatch<D>),
}

/// What became of the last action of a scrape.
#[derive(Debug)]
pub enum ScrapeEvent<D> {
    /// The response began, with this status.
    Head { status: u16 },
    /// The body was read.
    BodyRead,
    /// The body was decoded.
    Decoded,
    /// The body was parsed.
    Parsed { events: Vec<Metric<D>> },
    /// It failed.
    Failed,
    /// The scrape took too long.
    TimedOut,
}

/// What a scrape does next.
#[derive(Debug)]
pub enum ScrapeAction<D> {
    /// The body is read.
    ReadBody,
    /// The body is decoded as the response says.
    Decode,
    /// The body is parsed.
    Parse,
    /// The batch is handed on.
    Finish(ScrapedBatch<D>),
    /// Nothing: the scrape had ended.
    Nothing,
}

/// A batch, read as characters.
#[verifier::ext_equal]
pub struct BatchView<D> {
    pub target_url: Seq<char>,
    pub events: Seq<MetricView<D>>,
    pub event_count: nat,
}

impl<D> View for ScrapedBatch<D> {
    type V = BatchView<D>;

    open spec fn view(&self) -> BatchView<D> {
        BatchView {
            target_url: self.target_url@,
            events: metric_views(self.events@),
            event_count: self.event_count as nat,
        }
    }
}

/// The stage after an event.
pub open spec fn next_stage<D>(stage: Stage, event: ScrapeEvent<D>) -> Stage {
    match (stage, event) {
        (Stage::Response, ScrapeEvent::Head { status }) => if status == 200 {
            Stage::Body
        } else {
            Stage::Done
        },
        (Stage::Body, ScrapeEvent::BodyRead) => Stage::Decoding,
        (Stage::Decoding, ScrapeEvent::Decoded) => Stage::Parsing,
        _ => Stage::Done,
    }
}

/// The action that follows an event: on to the next step, or the batch. A scrape
/// that got as far as parsing hands on the metrics with `up` 1; every other end is
/// `up` 0 alone.
pub open spec fn action_fits<D>(
    action: ScrapeAction<D>,
    stage: Stage,
    event: ScrapeEvent<D>,
    target: TargetView,
    request_uri: UriView,
    options: ScrapeOptions,
    c: MetadataLabelsConfig,
) -> bool {
    match (stage, event) {
        (Stage::Done, _) => action is Nothing,
        (Stage::Parsing, ScrapeEvent::Parsed { events }) => {
            &&& action matches ScrapeAction::Finish(b)
            &&& b@ == up_batch(metric_views(events@), target, request_uri, options, c)
        },
        _ => match next_stage(stage, event) {
            Stage::Body => action is ReadBody,
            Stage::Decoding => action is Decode,
            Stage::Parsing => action is Parse,
            _ => {
                &&& action matches ScrapeAction::Finish(b)
                &&& b@ == down_batch::<D>(target, c)
            },
        },
    }
}

/// The metric that says whether a target answered.
pub open spec fn up_metric<D>(target: TargetView, c: MetadataLabelsConfig, up: i64) -> MetricView<
    D,
> {
    MetricView {
        name: "up"@,
        kind: MetricKind::Absolute,
        value: MetricValue::IntegerGauge { whole: up },
        timestamp: None,
        tags: enriched(Map::empty(), target, c, false),
    }
}

/// The batch of a target that did not answer.
pub open spec fn down_batch<D>(target: TargetView, c: MetadataLabelsConfig) -> BatchView<D> {
    BatchView { target_url: target.url, events: seq![up_metric(target, c, 0)], event_count: 1 }
}

/// The host and port of an address. Port 80 is taken where none is named.
pub open spec fn instance_of(u: UriView) -> Seq<char> {
    (match u.0 {
        Some(h) => h,
        None => Seq::empty(),
    }) + ":"@ + decimal(
        (match u.1 {
            Some(p) => p,
            None => 80,
        }) as int,
    )
}

/// The tags of a scraped metric.
pub open spec fn scraped_tags(
    tags: TagMap,
    target: TargetView,
    u: UriView,
    options: ScrapeOptions,
    c: MetadataLabelsConfig,
) -> TagMap {
    let t1 = match options.instance_tag {
        Some(tag) => with_tag(tags, tag@, instance_of(u), options.honor_labels),
        None => tags,
    };
    let t2 = match options.endpoint_tag {
        Some(tag) => with_tag(t1, tag@, u.2, options.honor_labels),
        None => t1,
    };
    enriched(t2, target, c, options.honor_labels)
}

/// A scraped metric as it is handed on.
pub open spec fn scraped_metric<D>(
    m: MetricView<D>,
    target: TargetView,
    u: UriView,
    options: ScrapeOptions,
    c: MetadataLabelsConfig,
) -> MetricView<D> {
    MetricView { tags: scraped_tags(m.tags, target, u, options, c), ..m }
}

/// The batch of a target that answered.
pub open spec fn up_batch<D>(
    events: Seq<MetricView<D>>,
    target: TargetView,
    request_uri: UriView,
    options: ScrapeOptions,
    c: MetadataLabelsConfig,
) -> BatchView<D> {
    BatchView {
        target_url: target.url,
        events: events.map_values(
            |m: MetricView<D>| scraped_metric(m, target, request_uri, options, c),
        ).push(up_metric(target, c, 1)),
        event_count: events.len() + 1,
    }
}

/// The metric that says whether a target answered.
pub fn build_up_event<D>(
    target: &DiscoveredTarget,
    metadata_config: &MetadataLabelsConfig,
    up: i64,
) -> (r: Metric<D>)
    ensures
        r@ == up_metric::<D>(target@, *metadata_config, up),
{
    let mut metric = Metric::new(
        copy("up"),
        MetricKind::Absolute,
        MetricValue::IntegerGauge { whole: up },
    );
    add_metadata_to_metric(&mut metric, target, metadata_config, false);
    metric
}

fn down<D>(target: &DiscoveredTarget, config: &MetadataLabelsConfig) -> (r: ScrapedBatch<D>)
    ensures
        r@ == down_batch::<D>(target@, *config),
{
    let mut events: Vec<Metric<D>> = Vec::new();
    let m = build_up_event(target, config, 0);
    let ghost mv = m@;
    events.push(m);
    assert(metric_views(events@) =~= seq![mv]);
    ScrapedBatch { target_url: copy(target.url.as_str()), events, event_count: 1 }
}

fn write_instance(u: &UriParts) -> (r: String)
    ensures
        r@ == instance_of(u@),
{
    let mut s = match &u.host {
        Some(h) => copy(h.as_str()),
        None => String::new(),
    };
    let port: u16 = match u.port {
        Some(p) => p,
        None => 80,
    };
    s.append(":");
    let number = decimal_u64(port as u64);
    s.append(number.as_str());
    s
}

fn tag_event<D>(
    metric: &mut Metric<D>,
    target: &DiscoveredTarget,
    request_uri: &UriParts,
    options: &ScrapeOptions,
    config: &MetadataLabelsConfig,
)
    ensures
        final(metric)@ == scraped_metric(
            old(metric)@,
            target@,
            request_uri@,
            *options,
            *config,
        ),
{
    match &options.instance_tag {
        Some(tag) => add_tag(
            metric,
            copy(tag.as_str()),
            write_instance(request_uri),
            options.honor_labels,
        ),
        None => {},
    }
    match &options.endpoint_tag {
        Some(tag) => add_tag(
            metric,
            copy(tag.as_str()),
            copy(request_uri.text.as_str()),
            options.honor_labels,
        ),
        None => {},
    }
    add_metadata_to_metric(metric, target, config, options.honor_labels);
}

/// Hands on what a target told, with the tags of the target and of the address
/// that the request went to.
pub fn finish_scrape<D>(
    target: &DiscoveredTarget,
    events: Vec<Metric<D>>,
    request_uri: &UriParts,
    options: &ScrapeOptions,
    config: &MetadataLabelsConfig,
) -> (r: ScrapedBatch<D>)
    ensures
        r@ == up_batch(metric_views(events@), target@, request_uri@, *options, *config),
{
    let ghost given = metric_views(events@);
    let ghost f = |m: MetricView<D>|
        scraped_metric(m, target@, request_uri@, *options, *config);
    let mut done = events;
    let n: usize = done.len();
    let mut i: usize = 0;
    while i < n
        invariant
            n == given.len(),
            n == done@.len(),
            i <= n,
            f == (|m: MetricView<D>|
                scraped_metric(m, target@, request_uri@, *options, *config)),
            forall|j: int| 0 <= j < i ==> (#[trigger] done@[j])@ == f(given[j]),
            forall|j: int| i <= j < n ==> (#[trigger] done@[j])@ == given[j],
        decreases n - i,
    {
        tag_event(&mut done[i], target, request_uri, options, config);
        i = i + 1;
    }
    assert(metric_views(done@) =~= given.map_values(f));
    let up = build_up_event(target, config, 1);
    let ghost upv = up@;
    let ghost was = done@;
    done.push(up);
    assert(metric_views(done@) =~= metric_views(was).push(upv));
    let event_count: usize = done.len();
    ScrapedBatch { target_url: copy(target.url.as_str()), events: done, event_count }
}

// ---------------------------------------------------------------------------
// What holds of every scrape
// ---------------------------------------------------------------------------
/// How many steps a scrape has behind it.
pub open spec fn progress(stage: Stage) -> int {
    match stage {
        Stage::Response => 0,
        Stage::Body => 1,
        Stage::Decoding => 2,
        Stage::Parsing => 3,
        Stage::Done => 4,
    }
}

/// Every event brings a scrape nearer to its end, whatever the event is.
pub proof fn law_scrape_ends<D>(stage: Stage, event: ScrapeEvent<D>)
    requires
        stage !is Done,
    ensures
        progress(next_stage(stage, event)) > progress(stage),
{
}

/// Every batch ends with `up`, which is 1 where the target answered and 0 where it
/// did not, and counts its metrics.
pub proof fn law_batch_tells_up<D>(
    events: Seq<MetricView<D>>,
    target: TargetView,
    request_uri: UriView,
    options: ScrapeOptions,
    c: MetadataLabelsConfig,
)
    ensures
        ({
            let up = up_batch(events, target, request_uri, options, c);
            &&& up.events.last() == up_metric::<D>(target, c, 1)
            &&& up.event_count == up.events.len()
            &&& up.target_url == target.url
        }),
        ({
            let down = down_batch::<D>(target, c);
            &&& down.events.last() == up_metric::<D>(target, c, 0)
            &&& down.event_count == down.events.len()
            &&& down.target_url == target.url
        }),
{
}

/// What worker number `index` does next, where `desired` workers are wanted.
pub open spec fn action_of_worker(index: int, desired: int, event: WorkerEvent) -> WorkerAction {
    match event {
        WorkerEvent::DesiredClosed
        | WorkerEvent::ShutDown
        | WorkerEvent::QueueFinished => WorkerAction::Stop,
        _ => if index >= desired {
            WorkerAction::AwaitDesired
        } else {
            WorkerAction::TakeBatch
        },
    }
}

/// What there is to say of how sending a batch ended.
pub open spec fn report_of(outcome: SendOutcome, wait: int, send: int) -> SendReport {
    match outcome {
        SendOutcome::Sent => if wait >= 2_000_000_000 || send >= 2_000_000_000 {
            SendReport::Slow
        } else {
            SendReport::Nothing
        },
        SendOutcome::Failed => SendReport::Failed,
        SendOutcome::TimedOut => SendReport::TimedOut,
    }
}

/// Of the workers that go on, as many take batches as are wanted, those with the
/// lowest numbers; a worker ends where nothing more can come, and only then.
pub proof fn law_as_many_workers_as_wanted(index: int, desired: int, event: WorkerEvent)
    ensures
        ({
            let a = action_of_worker(index, desired, event);
            let over = event is DesiredClosed || event is ShutDown || event is QueueFinished;
            &&& a is Stop <==> over
            &&& !over ==> (a is TakeBatch <==> index < desired)
        }),
{
}

/// A batch that was sent is spoken of where it waited or was sent for two seconds or
/// longer, and one that was not sent in any case, however long that took.
pub proof fn law_slow_and_lost_batches_are_reported(outcome: SendOutcome, wait: int, send: int)
    ensures
        ({
            let second: int = 1_000_000_000;
            let r = report_of(outcome, wait, send);
            &&& outcome is Sent && (wait >= 2 * second || send >= 2 * second) ==> r is Slow
            &&& outcome is Sent && wait < 2 * second && send < 2 * second ==> r is Nothing
            &&& outcome is Failed ==> r is Failed
            &&& outcome is TimedOut ==> r is TimedOut
        }),
{
}

/// Nothing gives way while there is room, and where there is none exactly the oldest
/// batch does.
pub proof fn law_only_a_full_queue_gives_way<T>(items: Seq<T>, capacity: nat)
    ensures
        items.len() < capacity ==> made_room(items, capacity) == items,
        items.len() >= capacity && items.len() > 0 ==> items == seq![items[0]] + made_room(
            items,
            capacity,
        ),
{
    if items.len() >= capacity && items.len() > 0 {
        assert(items =~= seq![items[0]] + items.drop_first());
    }
}

/// The limits that hold where none is configured grow with the number of targets, in
/// steps behind 500 and behind 1000 targets.
pub proof fn law_limits_grow_with_the_targets(n: nat, m: nat)
    ensures
        n <= 500 ==> queue_capacity_for(n) == 16 && concurrency_for(n) == 32,
        500 < n <= 1000 ==> queue_capacity_for(n) == 24 && concurrency_for(n) == 96,
        n > 1000 ==> queue_capacity_for(n) == 32 && concurrency_for(n) == 192,
        n <= 1000 ==> workers_for(n) == 4,
        n > 1000 ==> workers_for(n) == 6,
        n <= m ==> queue_capacity_for(n) <= queue_capacity_for(m) && concurrency_for(n)
            <= concurrency_for(m) && workers_for(n) <= workers_for(m),
{
}

/// A scrape goes on step by step while all goes well, from an answer with the status
/// 200 to its body, its decoding and its metrics.
pub proof fn law_good_scrape_goes_on<D>(
    action: ScrapeAction<D>,
    target: TargetView,
    u: UriView,
    options: ScrapeOptions,
    c: MetadataLabelsConfig,
    events: Vec<Metric<D>>,
)
    ensures
        ({
            let ok = ScrapeEvent::<D>::Head { status: 200 };
            let read = ScrapeEvent::<D>::BodyRead;
            let decoded = ScrapeEvent::<D>::Decoded;
            let parsed = ScrapeEvent::Parsed { events };
            &&& next_stage(Stage::Response, ok) is Body
            &&& action_fits(action, Stage::Response, ok, target, u, options, c) ==> action
                is ReadBody
            &&& next_stage(Stage::Body, read) is Decoding
            &&& action_fits(action, Stage::Body, read, target, u, options, c) ==> action is Decode
            &&& next_stage(Stage::Decoding, decoded) is Parsing
            &&& action_fits(action, Stage::Decoding, decoded, target, u, options, c) ==> action
                is Parse
            &&& next_stage(Stage::Parsing, parsed) is Done
            &&& action_fits(action, Stage::Parsing, parsed, target, u, options, c) ==> (
            action matches ScrapeAction::Finish(b) && b@ == up_batch(
                metric_views(events@),
                target,
                u,
                options,
                c,
            ))
        }),
{
}

/// A scrape whose answer has another status, or that fails or takes too long at any
/// step, ends with a batch that says that the target is down.
pub proof fn law_bad_scrape_says_down<D>(
    stage: Stage,
    event: ScrapeEvent<D>,
    action: ScrapeAction<D>,
    target: TargetView,
    u: UriView,
    options: ScrapeOptions,
    c: MetadataLabelsConfig,
)
    requires
        stage !is Done,
        event is Failed || event is TimedOut || (stage is Response && (
        event matches ScrapeEvent::Head { status } && status != 200)),
        action_fits(action, stage, event, target, u, options, c),
    ensures
        next_stage(stage, event) is Done,
        action matches ScrapeAction::Finish(b) && {
            &&& b.target_url@ == target.url
            &&& b.events@.len() == 1 && b.event_count == 1
            &&& b.events@[0].name@ == "up"@
            &&& b.events@[0].kind is Absolute
            &&& b.events@[0].value == (MetricValue::<D>::IntegerGauge { whole: 0 })
        },
{
    let b = action->Finish_0;
    assert(b@ == down_batch::<D>(target, c));
    assert(metric_views(b.events@).len() == 1);
    assert(metric_views(b.events@)[0] == b.events@[0]@);
    assert(b@.events[0] == up_metric::<D>(target, c, 0));
}

/// A scrape that has ended does nothing more.
pub proof fn law_ended_scrape_does_nothing<D>(
    event: ScrapeEvent<D>,
    action: ScrapeAction<D>,
    target: TargetView,
    u: UriView,
    options: ScrapeOptions,
    c: MetadataLabelsConfig,
)
    requires
        action_fits(action, Stage::Done, event, target, u, options, c),
    ensures
        action is Nothing,
        next_stage(Stage::Done, event) is Done,
{
}

/// `up` is an absolute gauge without a moment, and tells the job and the address of
/// its target.
pub proof fn law_up_tells_the_target<D>(target: TargetView, c: MetadataLabelsConfig, up: i64)
    ensures
        ({
            let m = up_metric::<D>(target, c, up);
            let p = c.label_prefix@;
            &&& m.name == "up"@
            &&& m.kind is Absolute
            &&& m.value == (MetricValue::<D>::IntegerGauge { whole: up })
            &&& m.timestamp is None
            &&& super::metrics_enrichment::only(m.tags, p + "job"@, target.job_name)
            &&& super::metrics_enrichment::only(m.tags, p + "endpoint"@, target.url)
            &&& m.tags == enriched(Map::empty(), target, c, false)
        }),
{
    super::metrics_enrichment::law_job_and_address_are_told(Map::empty(), target, c, false);
}

/// The batch of a target that answered holds every metric that it told, in their
/// order and with what they were, and behind them `up` with the value 1.
pub proof fn law_batch_holds_what_was_told<D>(
    events: Seq<MetricView<D>>,
    target: TargetView,
    u: UriView,
    options: ScrapeOptions,
    c: MetadataLabelsConfig,
    i: int,
)
    ensures
        ({
            let b = up_batch(events, target, u, options, c);
            &&& b.target_url == target.url
            &&& b.events.len() == events.len() + 1
            &&& b.event_count == events.len() + 1
            &&& b.events[events.len() as int].name == "up"@
            &&& b.events[events.len() as int].value == (MetricValue::<D>::IntegerGauge { whole: 1 })
            &&& 0 <= i < events.len() ==> {
                &&& b.events[i].name == events[i].name
                &&& b.events[i].kind == events[i].kind
                &&& b.events[i].value == events[i].value
                &&& b.events[i].timestamp == events[i].timestamp
                &&& b.events[i].tags == scraped_tags(events[i].tags, target, u, options, c)
            }
        }),
{
}

/// An instance is the host, a colon and the port; port 80 where the address names
/// none.
pub proof fn law_instance_is_host_and_port(host: Seq<char>, port: u16, text: Seq<char>)
    ensures
        instance_of((Some(host), Some(port), text)) == host + ":"@ + decimal(port as int),
        instance_of((Some(host), None, text)) == host + ":80"@,
        instance_of((None, None, text)) == ":80"@,
{
    reveal_strlit(":80");
    reveal_strlit(":");
    reveal_with_fuel(crate::number::number_text, 3);
    assert(decimal(80) =~= seq!['8', '0']);
    assert(host + ":"@ + decimal(80) =~= host + ":80"@);
    assert(Seq::<char>::empty() + ":"@ + decimal(80) =~= ":80"@);
}

/// A metric that was scraped gets the instance and the address that the request went
/// to, under the tags that are configured for them, and then what is known of its
/// target; a value that it has stays where it is honored.
pub proof fn law_scraped_metric_tells_the_request(
    tags: TagMap,
    target: TargetView,
    u: UriView,
    options: ScrapeOptions,
    c: MetadataLabelsConfig,
) -> (t: TagMap)
    ensures
        scraped_tags(tags, target, u, options, c) == enriched(t, target, c, options.honor_labels),
        forall|name: Seq<char>|
            #![trigger super::metrics_enrichment::same_at(t, tags, name)]
            (options.instance_tag matches Some(x) ==> x@ != name) && (
            options.endpoint_tag matches Some(x) ==> x@ != name)
                ==> super::metrics_enrichment::same_at(t, tags, name),
        options.endpoint_tag matches Some(x) ==> (options.instance_tag matches Some(y) ==> y@ != x@)
            ==> super::metrics_enrichment::settled(
            tags,
            t,
            x@,
            options.honor_labels,
            Some(u.2),
        ),
        options.instance_tag matches Some(x) ==> (options.endpoint_tag matches Some(y) ==> y@ != x@)
            ==> super::metrics_enrichment::settled(
            tags,
            t,
            x@,
            options.honor_labels,
            Some(instance_of(u)),
        ),
{
    let t1 = match options.instance_tag {
        Some(tag) => with_tag(tags, tag@, instance_of(u), options.honor_labels),
        None => tags,
    };
    match options.endpoint_tag {
        Some(tag) => with_tag(t1, tag@, u.2, options.honor_labels),
        None => t1,
    }
}

/// Where the tags of the instance and of the address are apart from those that tell of
/// the target, both are told of every metric that was scraped.
pub proof fn law_instance_and_address_are_told(
    tags: TagMap,
    target: TargetView,
    u: UriView,
    options: ScrapeOptions,
    c: MetadataLabelsConfig,
    instance: Seq<char>,
    endpoint: Seq<char>,
)
    requires
        options.instance_tag matches Some(x) && x@ == instance,
        options.endpoint_tag matches Some(x) && x@ == endpoint,
        instance != endpoint,
        !super::metrics_enrichment::job_tag(c.label_prefix@, instance),
        !super::metrics_enrichment::pod_tag(c.label_prefix@, instance),
        !super::metrics_enrichment::node_tag(c.label_prefix@, instance),
        !super::metrics_enrichment::service_tag(c.label_prefix@, instance),
        !super::metrics_enrichment::job_tag(c.label_prefix@, endpoint),
        !super::metrics_enrichment::pod_tag(c.label_prefix@, endpoint),
        !super::metrics_enrichment::node_tag(c.label_prefix@, endpoint),
        !super::metrics_enrichment::service_tag(c.label_prefix@, endpoint),
    ensures
        ({
            let after = scraped_tags(tags, target, u, options, c);
            let honor = options.honor_labels;
            &&& super::metrics_enrichment::settled(
                tags,
                after,
                instance,
                honor,
                Some(instance_of(u)),
            )
            &&& super::metrics_enrichment::settled(tags, after, endpoint, honor, Some(u.2))
        }),
{
    let t = law_scraped_metric_tells_the_request(tags, target, u, options, c);
    super::metrics_enrichment::law_other_tags_stay(
        t,
        target,
        c,
        options.honor_labels,
        instance,
    );
    super::metrics_enrichment::law_other_tags_stay(
        t,
        target,
        c,
        options.honor_labels,
        endpoint,
    );
}

/// No batch is lost or changes its place: what gave way and what waits are what waited
/// before and the batch that came.
pub proof fn law_nothing_is_lost_by_queueing<T>(items: Seq<T>, capacity: nat, b: T)
    ensures
        match after_push(items, capacity, b) {
            (left, None) => left == items.push(b) && (items.len() < capacity || items.len() == 0),
            (left, Some(x)) => seq![x] + left == items.push(b) && items.len() >= capacity,
        },
{
    let (left, gone) = after_push(items, capacity, b);
    if gone is Some {
        assert(seq![gone->0] + left =~= items.push(b));
    }
}

/// Batches are taken in the order in which they came: the one that is taken stood
/// before those that stay, and something is taken wherever something waits.
pub proof fn law_batches_are_taken_in_order<T>(b: T, rest: Seq<T>)
    ensures
        after_pop(seq![b] + rest) == (rest, Some(b)),
        after_pop(Seq::<T>::empty()) == (Seq::<T>::empty(), None::<T>),
{
    assert((seq![b] + rest).drop_first() =~= rest);
}

/// A wait ends with the batch that was taken, and without one only once the shutdown was
/// seen.
pub proof fn law_wait_ends_with_a_batch_or_the_shutdown<D>(
    r: PopStep<D>,
    taken: Option<QueuedBatch<D>>,
    shutdown_seen: bool,
)
    requires
        wait_tells(r, taken, shutdown_seen),
    ensures
        r matches PopStep::Got(b) ==> taken == Some(b),
        taken is Some ==> r is Got,
        taken is None && shutdown_seen ==> r is Finished,
        taken is None && !shutdown_seen ==> r is Wait,
{
}

/// A limit that is configured holds whatever the number of targets, and one that is not
/// follows from it, for the batches that wait, the workers and the targets at once.
pub proof fn law_configured_limits_hold(
    p: TickPlan,
    waiting: Option<usize>,
    workers: Option<usize>,
    at_once: Option<usize>,
    n: nat,
)
    requires
        plan_fits(p, (waiting, workers, at_once), n),
    ensures
        p.targets@.len() == n,
        waiting matches Some(x) ==> p.queue_capacity == x,
        workers matches Some(x) ==> p.send_workers == x,
        at_once matches Some(x) ==> p.scrape_concurrency == x,
        waiting is None ==> p.queue_capacity == if n <= 500 {
            16int
        } else if n <= 1000 {
            24
        } else {
            32
        },
        workers is None ==> p.send_workers == if n <= 1000 {
            4int
        } else {
            6
        },
        at_once is None ==> p.scrape_concurrency == if n <= 500 {
            32int
        } else if n <= 1000 {
            96
        } else {
            192
        },
{
}

/// A configured limit takes the place of any other.
pub proof fn law_configured_limit_counts(n: usize, other: usize)
    ensures
        limit_in_force(Some(n), other) == n,
        limit_in_force(None, other) == other,
{
}

} // verus!
