//! The crawl session controller: which execution mode a run takes, the
//! handles of its detached tasks, and the stop and unsubscribe protocol.
//!
//! The engine session itself, the spawning of tasks and the awaiting of a run
//! happen around this controller: it decides, and it keeps the handles that
//! it is given.

use crate::handles::{
    is_largest, lemma_largest_exists, lemma_next_id_from_largest, lemma_next_id_is_fresh, next_id_of, HandleTable,
};
use crate::page::{is_record_of, new_page, NPage, RawPage};
use crate::engine::{engine_clone, engine_new, engine_stop, engine_url};
use spider::website::Website as Engine;
use tokio::task::JoinHandle;
use vstd::prelude::*;

verus! {

/// How a run of the engine is executed.
#[derive(Clone, Copy, Debug, PartialEq, Eq, Structural)]
pub enum ExecutionMode {
    /// No callback, foreground: the caller waits for the run to end.
    Blocking,
    /// No callback, background: the run goes to a detached task.
    Detached,
    /// Callback, foreground: a receive loop and the run race in the caller's
    /// context, and the first to finish ends both.
    Streaming,
    /// Callback, background: a detached consumer task and a detached run task.
    StreamingDetached,
}

/// The engine entry point that a run calls.
#[derive(Clone, Copy, Debug, PartialEq, Eq, Structural)]
pub enum EngineCall {
    /// A crawl through a headless browser.
    Crawl,
    /// A crawl over plain HTTP.
    CrawlRaw,
    /// The adaptive crawl.
    CrawlSmart,
    /// A scrape, which keeps page bodies, through a headless browser.
    Scrape,
    /// A scrape over plain HTTP.
    ScrapeRaw,
}

/// What a call of `crawl`, `crawl_smart` or `scrape` is to do.
#[derive(Clone, Copy, Debug, PartialEq, Eq, Structural)]
pub struct RunPlan {
    pub mode: ExecutionMode,
    pub call: EngineCall,
}

/// What `stop` found and what is left to do.
#[derive(Debug)]
pub struct StopOutcome {
    /// The domain to which a shutdown is to be sent, without waiting for it.
    pub shutdown_domain: Option<String>,
    /// A crawl handle was found, and cancelled.
    pub found: bool,
}

/// The mode for a run, from whether a callback streams its pages and whether
/// it runs in the background.
pub open spec fn mode_of(has_callback: bool, background: bool) -> ExecutionMode {
    if has_callback {
        if background {
            ExecutionMode::StreamingDetached
        } else {
            ExecutionMode::Streaming
        }
    } else if background {
        ExecutionMode::Detached
    } else {
        ExecutionMode::Blocking
    }
}

/// Whether a mode hands work to detached tasks.
pub open spec fn is_detached(mode: ExecutionMode) -> bool {
    mode is Detached || mode is StreamingDetached
}

/// An optional flag counts only when it is given and set.
pub open spec fn flag_set(flag: Option<bool>) -> bool {
    flag == Some(true)
}

/// Selects the execution mode of a run.
pub fn select_mode(has_callback: bool, background: bool) -> (r: ExecutionMode)
    ensures
        r == mode_of(has_callback, background),
{
    if has_callback {
        if background {
            ExecutionMode::StreamingDetached
        } else {
            ExecutionMode::Streaming
        }
    } else if background {
        ExecutionMode::Detached
    } else {
        ExecutionMode::Blocking
    }
}

/// Whether an optional flag is given and set.
pub fn is_set(f: Option<bool>) -> (r: bool)
    ensures
        r == flag_set(f),
{
    match f {
        Some(b) => b,
        None => false,
    }
}

/// The ids after a handle is put under the next id, as `HandleTable::push`
/// does when an id is left.
pub open spec fn pushed(ids: Set<u32>) -> Set<u32> {
    if next_id_of(ids) <= u32::MAX {
        ids.insert(next_id_of(ids) as u32)
    } else {
        ids
    }
}

/// The engine entry point of a crawl: headless when asked for, plain HTTP
/// otherwise.
pub open spec fn crawl_call_of(headless: bool) -> EngineCall {
    if headless {
        EngineCall::Crawl
    } else {
        EngineCall::CrawlRaw
    }
}

/// The engine entry point of a scrape: headless when asked for, plain HTTP
/// otherwise.
pub open spec fn scrape_call_of(headless: bool) -> EngineCall {
    if headless {
        EngineCall::Scrape
    } else {
        EngineCall::ScrapeRaw
    }
}

/// Selects the engine entry point of a crawl.
pub fn crawl_call(headless: Option<bool>) -> (r: EngineCall)
    ensures
        r == crawl_call_of(flag_set(headless)),
{
    if is_set(headless) {
        EngineCall::Crawl
    } else {
        EngineCall::CrawlRaw
    }
}

/// Selects the engine entry point of a scrape.
pub fn scrape_call(headless: Option<bool>) -> (r: EngineCall)
    ensures
        r == scrape_call_of(flag_set(headless)),
{
    if is_set(headless) {
        EngineCall::Scrape
    } else {
        EngineCall::ScrapeRaw
    }
}

/// The tasks that a background run spawned: the run itself, and the consumer
/// of its pages when it streams them to a callback.
pub struct DetachedTasks {
    pub run: JoinHandle<()>,
    pub consumer: Option<JoinHandle<()>>,
}

/// A background run comes with its tasks, a consumer among them exactly when
/// there is a callback; a foreground run comes with none.
pub open spec fn tasks_fit(has_callback: bool, background: bool, tasks: Option<DetachedTasks>) -> bool {
    match tasks {
        Some(t) => background && (t.consumer is Some <==> has_callback),
        None => !background,
    }
}

/// What starting a run did: its plan, and the ids its tasks were recorded
/// under, if it was a background run.
#[derive(Clone, Copy, Debug, PartialEq, Eq)]
pub struct RunStart {
    pub plan: RunPlan,
    pub crawl_id: Option<u32>,
    pub subscription_id: Option<u32>,
}

/// The id that a table with ids `ids` hands to a task, when a task is given
/// and an id is left.
pub open spec fn issued(ids: Set<u32>, given: bool) -> Option<u32> {
    if given && next_id_of(ids) <= u32::MAX {
        Some(next_id_of(ids) as u32)
    } else {
        None
    }
}

/// The state of a session that its operations speak of.
pub struct SessionView {
    pub subscriptions: Set<u32>,
    pub crawls: Set<u32>,
    pub raw_content: bool,
    pub running_in_background: bool,
}

/// The session after a run starts: the background flag is set by a
/// background run and kept otherwise.
pub open spec fn started(v: SessionView, background: bool) -> SessionView {
    SessionView { running_in_background: v.running_in_background || background, ..v }
}

/// The session after a detached run is recorded: one new crawl id, and one new
/// subscription id when a consumer task comes with it.
pub open spec fn recorded(v: SessionView, with_subscription: bool) -> SessionView {
    SessionView {
        crawls: pushed(v.crawls),
        subscriptions: if with_subscription {
            pushed(v.subscriptions)
        } else {
            v.subscriptions
        },
        ..v
    }
}

/// The session after `crawl`, `crawl_smart` or `scrape`: a background run is
/// marked and its tasks recorded; a foreground run changes nothing.
pub open spec fn ran(v: SessionView, has_callback: bool, background: bool) -> SessionView {
    if background {
        recorded(started(v, true), has_callback)
    } else {
        v
    }
}

/// A crawl session: the handles of its subscription and crawl tasks, whether
/// page bodies are kept as raw bytes, and whether a background run is live.
pub struct Website {
    inner: Engine,
    subscription_handles: HandleTable,
    crawl_handles: HandleTable,
    raw_content: bool,
    running_in_background: bool,
}

impl View for Website {
    type V = SessionView;

    closed spec fn view(&self) -> SessionView {
        SessionView {
            subscriptions: self.subscription_handles@,
            crawls: self.crawl_handles@,
            raw_content: self.raw_content,
            running_in_background: self.running_in_background,
        }
    }
}

impl Website {
    /// Both id sets are finite.
    pub open spec fn wf(&self) -> bool {
        self@.subscriptions.finite() && self@.crawls.finite()
    }

    /// A session for `url` with no task; `raw_content` is off unless it is
    /// given as set.
    pub fn new(url: String, raw_content: Option<bool>) -> (r: Website)
        ensures
            r.wf(),
            r@.subscriptions == Set::<u32>::empty(),
            r@.crawls == Set::<u32>::empty(),
            r@.raw_content == flag_set(raw_content),
            !r@.running_in_background,
    {
        Website {
            inner: engine_new(url.as_str()),
            subscription_handles: HandleTable::new(),
            crawl_handles: HandleTable::new(),
            raw_content: is_set(raw_content),
            running_in_background: false,
        }
    }

    /// The engine session.
    pub fn engine(&self) -> &Engine {
        &self.inner
    }

    /// The engine session, to configure it or to run it in the foreground.
    /// Only the engine is reached: the controller's state stays as it is.
    pub fn engine_mut(&mut self) -> (r: &mut Engine)
        ensures
            final(self)@ == old(self)@,
            final(self).wf() == old(self).wf(),
    {
        &mut self.inner
    }

    /// An independent copy of the engine session, for a detached run.
    pub fn detached_engine(&self) -> Engine {
        engine_clone(&self.inner)
    }

    /// Whether page records carry raw bytes rather than text.
    pub fn raw_content(&self) -> (r: bool)
        ensures
            r == self@.raw_content,
    {
        self.raw_content
    }

    /// Whether a background run was started and not stopped since.
    pub fn running_in_background(&self) -> (r: bool)
        ensures
            r == self@.running_in_background,
    {
        self.running_in_background
    }

    /// Whether `id` names a live subscription.
    pub fn has_subscription(&self, id: u32) -> (r: bool)
        ensures
            r == self@.subscriptions.contains(id),
    {
        self.subscription_handles.contains(id)
    }

    /// Whether `id` names a live crawl task.
    pub fn has_crawl(&self, id: u32) -> (r: bool)
        ensures
            r == self@.crawls.contains(id),
    {
        self.crawl_handles.contains(id)
    }

    /// Records the consumer task of a new subscription and returns its id,
    /// one more than the largest subscription id present (zero if none).
    /// `None` when no id is left; the task is then cancelled.
    pub fn subscribe(&mut self, handle: JoinHandle<()>) -> (r: Option<u32>)
        requires
            old(self).wf(),
        ensures
            final(self).wf(),
            final(self)@ == (SessionView { subscriptions: pushed(old(self)@.subscriptions), ..old(self)@ }),
            r is Some <==> next_id_of(old(self)@.subscriptions) <= u32::MAX,
            r matches Some(i) ==> i == next_id_of(old(self)@.subscriptions),
    {
        self.subscription_handles.push(handle)
    }

    /// Cancels and removes the subscription `id`, or every subscription when
    /// no id is given. Returns whether the subscription existed, or whether
    /// there was any.
    pub fn unsubscribe(&mut self, id: Option<u32>) -> (r: bool)
        requires
            old(self).wf(),
        ensures
            final(self).wf(),
            match id {
                Some(i) => {
                    &&& r == old(self)@.subscriptions.contains(i)
                    &&& final(self)@ == (SessionView { subscriptions: old(self)@.subscriptions.remove(i), ..old(self)@ })
                },
                None => {
                    &&& r == !old(self)@.subscriptions.is_empty()
                    &&& final(self)@ == (SessionView { subscriptions: Set::<u32>::empty(), ..old(self)@ })
                },
            },
    {
        cancel(&mut self.subscription_handles, id)
    }

    /// Stops the session: first the engine session is told to stop; a
    /// shutdown of the session's domain is owed exactly when a background run
    /// was live, and the flag is cleared. Then the crawl task `id`,
    /// or every crawl task when no id is given, is cancelled and removed.
    /// Subscriptions are left alone.
    pub fn stop(&mut self, id: Option<u32>) -> (r: StopOutcome)
        requires
            old(self).wf(),
        ensures
            final(self).wf(),
            r.shutdown_domain is Some == old(self)@.running_in_background,
            !final(self)@.running_in_background,
            final(self)@.subscriptions == old(self)@.subscriptions,
            final(self)@.raw_content == old(self)@.raw_content,
            match id {
                Some(i) => {
                    &&& r.found == old(self)@.crawls.contains(i)
                    &&& final(self)@.crawls == old(self)@.crawls.remove(i)
                },
                None => {
                    &&& r.found == !old(self)@.crawls.is_empty()
                    &&& final(self)@.crawls == Set::<u32>::empty()
                },
            },
    {
        engine_stop(&mut self.inner);
        let shutdown_domain = if self.running_in_background {
            Some(engine_url(&self.inner))
        } else {
            None
        };
        self.running_in_background = false;
        let found = cancel(&mut self.crawl_handles, id);
        StopOutcome { shutdown_domain, found }
    }

    fn launch(
        &mut self,
        has_callback: bool,
        background: bool,
        tasks: Option<DetachedTasks>,
        call: EngineCall,
    ) -> (r: RunStart)
        requires
            old(self).wf(),
            tasks_fit(has_callback, background, tasks),
        ensures
            final(self).wf(),
            final(self)@ == ran(old(self)@, has_callback, background),
            r.plan.mode == mode_of(has_callback, background),
            r.plan.call == call,
            r.crawl_id == issued(old(self)@.crawls, background),
            r.subscription_id == issued(old(self)@.subscriptions, background && has_callback),
    {
        let mode = select_mode(has_callback, background);
        match tasks {
            Some(t) => {
                self.running_in_background = true;
                let crawl_id = self.crawl_handles.push(t.run);
                let subscription_id = match t.consumer {
                    Some(h) => self.subscription_handles.push(h),
                    None => None,
                };
                RunStart { plan: RunPlan { mode, call }, crawl_id, subscription_id }
            },
            None => RunStart { plan: RunPlan { mode, call }, crawl_id: None, subscription_id: None },
        }
    }

    /// Starts a crawl: the mode from the callback and the background flag,
    /// the headless crawl when `headless` is set and the plain one otherwise.
    /// A background run hands its spawned tasks over; they are recorded under
    /// the next crawl id and, with a callback, the next subscription id, and
    /// the session is marked as running in the background. A foreground run
    /// leaves the session as it is.
    pub fn crawl(
        &mut self,
        has_callback: bool,
        background: Option<bool>,
        headless: Option<bool>,
        tasks: Option<DetachedTasks>,
    ) -> (r: RunStart)
        requires
            old(self).wf(),
            tasks_fit(has_callback, flag_set(background), tasks),
        ensures
            final(self).wf(),
            final(self)@ == ran(old(self)@, has_callback, flag_set(background)),
            r.plan.mode == mode_of(has_callback, flag_set(background)),
            r.plan.call == crawl_call_of(flag_set(headless)),
            r.crawl_id == issued(old(self)@.crawls, flag_set(background)),
            r.subscription_id == issued(old(self)@.subscriptions, flag_set(background) && has_callback),
    {
        let call = crawl_call(headless);
        self.launch(has_callback, is_set(background), tasks, call)
    }

    /// Starts an adaptive crawl, in the mode and with the recording that
    /// `crawl` would do.
    pub fn crawl_smart(&mut self, has_callback: bool, background: Option<bool>, tasks: Option<DetachedTasks>) -> (r: RunStart)
        requires
            old(self).wf(),
            tasks_fit(has_callback, flag_set(background), tasks),
        ensures
            final(self).wf(),
            final(self)@ == ran(old(self)@, has_callback, flag_set(background)),
            r.plan.mode == mode_of(has_callback, flag_set(background)),
            r.plan.call == EngineCall::CrawlSmart,
            r.crawl_id == issued(old(self)@.crawls, flag_set(background)),
            r.subscription_id == issued(old(self)@.subscriptions, flag_set(background) && has_callback),
    {
        self.launch(has_callback, is_set(background), tasks, EngineCall::CrawlSmart)
    }

    /// Starts a scrape, in the mode and with the recording that `crawl` would
    /// do: the headless scrape when `headless` is set and the plain one
    /// otherwise.
    pub fn scrape(
        &mut self,
        has_callback: bool,
        background: Option<bool>,
        headless: Option<bool>,
        tasks: Option<DetachedTasks>,
    ) -> (r: RunStart)
        requires
            old(self).wf(),
            tasks_fit(has_callback, flag_set(background), tasks),
        ensures
            final(self).wf(),
            final(self)@ == ran(old(self)@, has_callback, flag_set(background)),
            r.plan.mode == mode_of(has_callback, flag_set(background)),
            r.plan.call == scrape_call_of(flag_set(headless)),
            r.crawl_id == issued(old(self)@.crawls, flag_set(background)),
            r.subscription_id == issued(old(self)@.subscriptions, flag_set(background) && has_callback),
    {
        let call = scrape_call(headless);
        self.launch(has_callback, is_set(background), tasks, call)
    }

    /// The id sets of a well-formed session are finite.
    pub proof fn lemma_ids_finite(&self)
        requires
            self.wf(),
        ensures
            self@.subscriptions.finite(),
            self@.crawls.finite(),
    {
    }
}

/// What a repeating run does each time.
#[derive(Clone, Copy, Debug, PartialEq, Eq, Structural)]
pub enum CronKind {
    /// Crawl, collecting links and page data.
    Crawl,
    /// Scrape, also keeping page bodies.
    Scrape,
}

/// The kind of a repeating run: a scrape when the type given is `"scrape"`,
/// a crawl otherwise.
pub fn cron_kind(cron_type: &Option<String>) -> (r: CronKind)
    ensures
        r == (if cron_type matches Some(t) && t@ == "scrape"@ {
            CronKind::Scrape
        } else {
            CronKind::Crawl
        }),
{
    let scrape = "scrape".to_string();
    proof {
        reveal_strlit("scrape");
    }
    match cron_type {
        Some(t) => if *t == scrape {
            CronKind::Scrape
        } else {
            CronKind::Crawl
        },
        None => CronKind::Crawl,
    }
}

/// The idle-network wait for headless runs: none when waiting is off;
/// otherwise a timeout in milliseconds, where zero means no timeout.
pub fn idle_network_wait(wait_for_idle_network: bool, timeout_ms: u64) -> (r: Option<Option<u64>>)
    ensures
        r == (if !wait_for_idle_network {
            None
        } else if timeout_ms == 0 {
            Some(None)
        } else {
            Some(Some(timeout_ms))
        }),
{
    if !wait_for_idle_network {
        None
    } else if timeout_ms == 0 {
        Some(None)
    } else {
        Some(Some(timeout_ms))
    }
}

/// The pages of a site and their urls, in the order the pages came.
pub struct NWebsite {
    /// All of the website links.
    pub links: Vec<String>,
    /// The pages found.
    pub pages: Vec<NPage>,
}

impl NWebsite {
    /// Gathers received pages; the links are their urls, in the same order.
    pub fn from_pages(pages: Vec<NPage>) -> (r: NWebsite)
        ensures
            r.pages@ == pages@,
            r.links@.len() == pages@.len(),
            forall|i: int| 0 <= i < pages@.len() ==> r.links@[i]@ == #[trigger] pages@[i].url@,
    {
        let mut links: Vec<String> = Vec::new();
        let mut i: usize = 0;
        while i < pages.len()
            invariant
                i <= pages@.len(),
                links@.len() == i,
                forall|t: int| 0 <= t < i ==> links@[t]@ == #[trigger] pages@[t].url@,
            decreases pages@.len() - i,
        {
            links.push(pages[i].url.clone());
            i = i + 1;
        }
        NWebsite { links, pages }
    }
}

/// The forwarding task of a repeating run, if it has one.
pub struct Cron {
    cron_handle: Option<JoinHandle<()>>,
}

impl Cron {
    /// A runner with the given forwarding task.
    pub fn new(cron_handle: Option<JoinHandle<()>>) -> (r: Cron)
        ensures
            r.has_forwarder() == cron_handle is Some,
    {
        Cron { cron_handle }
    }

    /// Whether a forwarding task was given.
    pub closed spec fn has_forwarder(&self) -> bool {
        self.cron_handle is Some
    }

    /// Cancels the forwarding task, whether or not it has finished; returns
    /// whether there was one. The engine's runner is to be stopped after.
    pub fn stop(&self) -> (r: bool)
        ensures
            r == self.has_forwarder(),
    {
        match &self.cron_handle {
            Some(h) => {
                h.abort();
                true
            },
            None => false,
        }
    }
}

impl Website {
    /// The page records of the pages that a scrape kept, with text or raw
    /// bytes as the session was created with.
    pub fn get_pages(&self, pages: Vec<RawPage>) -> (r: Vec<NPage>)
        ensures
            r@.len() == pages@.len(),
            forall|i: int| 0 <= i < pages@.len() ==> is_record_of(#[trigger] pages@[i], self@.raw_content, r@[i]),
    {
        let ghost given = pages@;
        let mut rest = pages;
        let mut out: Vec<NPage> = Vec::new();
        let raw = self.raw_content;
        let mut taken: usize = 0;
        let total: usize = rest.len();
        while rest.len() > 0
            invariant
                raw == self@.raw_content,
                total == given.len(),
                taken + rest@.len() == given.len(),
                rest@ == given.subrange(taken as int, given.len() as int),
                out@.len() == taken,
                forall|i: int| 0 <= i < taken ==> is_record_of(#[trigger] given[i], raw, out@[i]),
            decreases rest@.len(),
        {
            let page = rest.remove(0);
            out.push(new_page(page, raw));
            proof {
                assert(rest@ =~= given.subrange(taken as int + 1, given.len() as int));
            }
            taken = taken + 1;
        }
        out
    }
}

/// A call that changes the subscription ids.
pub enum SubscriptionCall {
    Subscribe,
    Unsubscribe(u32),
}

/// The subscription ids after one call.
pub open spec fn apply_call(ids: Set<u32>, call: SubscriptionCall) -> Set<u32> {
    match call {
        SubscriptionCall::Subscribe => pushed(ids),
        SubscriptionCall::Unsubscribe(k) => ids.remove(k),
    }
}

/// The subscription ids after a sequence of calls.
pub open spec fn apply_calls(ids: Set<u32>, calls: Seq<SubscriptionCall>) -> Set<u32>
    decreases calls.len(),
{
    if calls.len() == 0 {
        ids
    } else {
        apply_call(apply_calls(ids, calls.drop_last()), calls.last())
    }
}

/// Every subscribe in `calls` finds an id left, and no unsubscribe names the
/// largest id present at its time.
pub open spec fn keeps_largest(ids: Set<u32>, calls: Seq<SubscriptionCall>) -> bool {
    forall|i: int| 0 <= i < calls.len() ==> match #[trigger] calls[i] {
        SubscriptionCall::Subscribe => next_id_of(apply_calls(ids, calls.take(i))) <= u32::MAX,
        SubscriptionCall::Unsubscribe(k) => k + 1 != next_id_of(apply_calls(ids, calls.take(i))),
    }
}

proof fn lemma_call_step(ids: Set<u32>, call: SubscriptionCall)
    requires
        ids.finite(),
        match call {
            SubscriptionCall::Subscribe => next_id_of(ids) <= u32::MAX,
            SubscriptionCall::Unsubscribe(k) => k + 1 != next_id_of(ids),
        },
    ensures
        apply_call(ids, call).finite(),
        next_id_of(apply_call(ids, call)) == next_id_of(ids) + if call is Subscribe {
            1int
        } else {
            0int
        },
{
    lemma_next_id_is_fresh(ids);
    match call {
        SubscriptionCall::Subscribe => {
            let n = next_id_of(ids) as u32;
            assert(is_largest(ids.insert(n), n));
            lemma_next_id_from_largest(ids.insert(n), n);
        },
        SubscriptionCall::Unsubscribe(k) => {
            if ids.contains(k) {
                lemma_largest_exists(ids);
                let m = choose|m: u32| is_largest(ids, m);
                lemma_next_id_from_largest(ids, m);
                assert(is_largest(ids.remove(k), m));
                lemma_next_id_from_largest(ids.remove(k), m);
            } else {
                assert(ids.remove(k) =~= ids);
            }
        },
    }
}

proof fn lemma_calls_last(ids: Set<u32>, calls: Seq<SubscriptionCall>, j: int)
    requires
        0 < j <= calls.len(),
    ensures
        apply_calls(ids, calls.take(j)) == apply_call(apply_calls(ids, calls.take(j - 1)), calls[j - 1]),
{
    assert(calls.take(j).drop_last() =~= calls.take(j - 1));
    assert(calls.take(j).last() == calls[j - 1]);
}

/// The next subscription id after the first `i` calls.
#[verifier::opaque]
spec fn next_after(ids: Set<u32>, calls: Seq<SubscriptionCall>, i: int) -> int {
    next_id_of(apply_calls(ids, calls.take(i)))
}

proof fn lemma_calls_prefix(ids: Set<u32>, calls: Seq<SubscriptionCall>, j: int)
    requires
        ids.finite(),
        keeps_largest(ids, calls),
        0 <= j <= calls.len(),
    ensures
        apply_calls(ids, calls.take(j)).finite(),
        forall|i: int| 0 <= i < j && calls[i] is Subscribe ==> next_after(ids, calls, i) < next_after(ids, calls, j),
        forall|i: int| 0 <= i <= j ==> next_after(ids, calls, i) <= next_after(ids, calls, j),
    decreases j,
{
    if j == 0 {
        assert(calls.take(0) =~= Seq::<SubscriptionCall>::empty());
    } else {
        lemma_calls_prefix(ids, calls, j - 1);
        let c = calls[j - 1];
        let before = apply_calls(ids, calls.take(j - 1));
        assert(apply_calls(ids, calls.take(j)).finite() && next_after(ids, calls, j) == next_after(ids, calls, j - 1)
            + if c is Subscribe {
            1int
        } else {
            0int
        }) by {
            reveal(next_after);
            lemma_calls_last(ids, calls, j);
            assert(match c {
                SubscriptionCall::Subscribe => next_id_of(before) <= u32::MAX,
                SubscriptionCall::Unsubscribe(k) => k + 1 != next_id_of(before),
            });
            lemma_call_step(before, c);
        }
        assert forall|i: int| 0 <= i < j && calls[i] is Subscribe implies next_after(ids, calls, i) < next_after(
            ids,
            calls,
            j,
        ) by {
            if i < j - 1 {
                assert(next_after(ids, calls, i) < next_after(ids, calls, j - 1));
            }
        }
        assert forall|i: int| 0 <= i <= j implies next_after(ids, calls, i) <= next_after(ids, calls, j) by {
            if i < j {
                assert(next_after(ids, calls, i) <= next_after(ids, calls, j - 1));
            }
        }
    }
}

/// Over any sequence of subscribe and unsubscribe calls in which each
/// subscribe gets an id and no unsubscribe names the largest id present, the
/// ids that the subscribes get rise strictly, so none is handed out twice.
pub proof fn lemma_subscription_ids_never_reused(ids: Set<u32>, calls: Seq<SubscriptionCall>, i: int, j: int)
    requires
        ids.finite(),
        keeps_largest(ids, calls),
        0 <= i < j < calls.len(),
        calls[i] is Subscribe,
        calls[j] is Subscribe,
    ensures
        next_id_of(apply_calls(ids, calls.take(i))) < next_id_of(apply_calls(ids, calls.take(j))),
{
    lemma_calls_prefix(ids, calls, j);
    reveal(next_after);
}

/// Unsubscribing an id that is not present finds nothing and leaves the
/// session as it was; unsubscribing all on a session without subscriptions
/// finds nothing.
pub proof fn lemma_unsubscribe_missing(v: SessionView, id: u32)
    requires
        !v.subscriptions.contains(id),
    ensures
        (SessionView { subscriptions: v.subscriptions.remove(id), ..v }) == v,
        v.subscriptions.is_empty() ==> (SessionView { subscriptions: Set::<u32>::empty(), ..v }) == v,
{
    assert(v.subscriptions.remove(id) =~= v.subscriptions);
    if v.subscriptions.is_empty() {
        assert(v.subscriptions =~= Set::<u32>::empty());
    }
}

/// A background run detaches its work, and starting it adds exactly one new
/// id to the crawl ids, the next one, and with a callback exactly one new id
/// to the subscription ids, the next one; without a callback the subscription
/// ids stay. Raw content is kept and the session is marked as running in the
/// background.
pub proof fn lemma_background_run_records_one_each(v: SessionView, has_callback: bool)
    requires
        v.subscriptions.finite(),
        v.crawls.finite(),
        next_id_of(v.subscriptions) <= u32::MAX,
        next_id_of(v.crawls) <= u32::MAX,
    ensures
        is_detached(mode_of(has_callback, true)),
        has_callback ==> mode_of(has_callback, true) == ExecutionMode::StreamingDetached,
        ({
            let w = ran(v, has_callback, true);
            let c = next_id_of(v.crawls) as u32;
            let s = next_id_of(v.subscriptions) as u32;
            &&& w.running_in_background
            &&& w.raw_content == v.raw_content
            &&& issued(v.crawls, true) == Some(c)
            &&& !v.crawls.contains(c)
            &&& w.crawls == v.crawls.insert(c)
            &&& w.crawls.len() == v.crawls.len() + 1
            &&& if has_callback {
                &&& issued(v.subscriptions, true) == Some(s)
                &&& !v.subscriptions.contains(s)
                &&& w.subscriptions == v.subscriptions.insert(s)
                &&& w.subscriptions.len() == v.subscriptions.len() + 1
            } else {
                w.subscriptions == v.subscriptions
            }
        }),
{
    lemma_next_id_is_fresh(v.crawls);
    lemma_next_id_is_fresh(v.subscriptions);
}

/// Every id that the session still holds lies below the id that the next
/// `subscribe` hands out, so a later subscription never gets an id that an
/// earlier one still holds, whatever was subscribed or unsubscribed between.
pub proof fn lemma_held_id_below_next(v: SessionView, held: u32)
    requires
        v.subscriptions.finite(),
        v.subscriptions.contains(held),
    ensures
        held < next_id_of(v.subscriptions),
        issued(v.subscriptions, true) matches Some(i) ==> held < i,
{
    lemma_next_id_is_fresh(v.subscriptions);
}

/// The session's choice between text and raw bytes, which only construction
/// sets, is kept by every change of state: a run started, its tasks
/// recorded, a subscription added or removed, and a stop.
pub proof fn lemma_raw_content_fixed(v: SessionView, has_callback: bool, background: bool, id: u32)
    ensures
        ran(v, has_callback, background).raw_content == v.raw_content,
        (SessionView { subscriptions: pushed(v.subscriptions), ..v }).raw_content == v.raw_content,
        (SessionView { subscriptions: v.subscriptions.remove(id), ..v }).raw_content == v.raw_content,
        (SessionView { crawls: v.crawls.remove(id), running_in_background: false, ..v }).raw_content
            == v.raw_content,
{
}

/// Cancels and removes the handle `id` of a table, or all of them; returns
/// whether it was there, or whether any was.
fn cancel(table: &mut HandleTable, id: Option<u32>) -> (r: bool)
    requires
        old(table).wf(),
    ensures
        final(table).wf(),
        match id {
            Some(i) => r == old(table)@.contains(i) && final(table)@ == old(table)@.remove(i),
            None => r == !old(table)@.is_empty() && final(table)@ == Set::<u32>::empty(),
        },
{
    match id {
        Some(i) => match table.remove(i) {
            Some(h) => {
                h.abort();
                true
            },
            None => false,
        },
        None => {
            let handles = table.drain_all();
            let mut k: usize = 0;
            while k < handles.len()
                invariant
                    k <= handles@.len(),
                decreases handles@.len() - k,
            {
                handles[k].abort();
                k = k + 1;
            }
            proof {
                if old(table)@.is_empty() {
                    assert(old(table)@.len() == 0);
                } else {
                    let x = old(table)@.choose();
                    assert(old(table)@.contains(x));
                    assert(old(table)@.len() != 0);
                }
            }
            handles.len() > 0
        },
    }
}

} // verus!
