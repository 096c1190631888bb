//! The hook system: handlers registered per event in priority order, and
//! the combination of their answers when an event is triggered.

use vstd::prelude::*;
use crate::text::opt_view;
use vstd::string::StringExecFns;

verus! {

/// The events hooks can be registered for.
#[derive(Clone, Copy, Debug, PartialEq, Eq, Hash, Structural)]
pub enum HookEvent {
    PreDownload,
    PostDownload,
    DownloadFailed,
    TaskCreated,
    TaskCompleted,
    TaskCancelled,
    PluginLoaded,
    PluginUnloaded,
    AIIntentParsed,
    PreSync,
    PostSync,
    PreCompress,
    PostCompress,
}

/// The priority of a handler; handlers of lower priority run first.
#[derive(Clone, Copy, Debug, PartialEq, Eq, PartialOrd, Ord, Hash, Structural)]
pub enum HookPriority {
    Lowest,
    Low,
    Normal,
    High,
    Highest,
}

/// The numeric value of a priority.
pub open spec fn priority_value(p: HookPriority) -> int {
    match p {
        HookPriority::Lowest => -100,
        HookPriority::Low => -50,
        HookPriority::Normal => 0,
        HookPriority::High => 50,
        HookPriority::Highest => 100,
    }
}

impl HookPriority {
    /// The numeric value of the priority (-100, -50, 0, 50 or 100).
    pub fn value(&self) -> (r: i32)
        ensures
            r == priority_value(*self),
    {
        match self {
            HookPriority::Lowest => -100,
            HookPriority::Low => -50,
            HookPriority::Normal => 0,
            HookPriority::High => 50,
            HookPriority::Highest => 100,
        }
    }
}

/// Data passed along with an event, as (key, value) updates applied in order.
pub open spec fn data_map(v: Seq<(String, serde_json::Value)>) -> Map<Seq<char>, serde_json::Value>
    decreases v.len(),
{
    if v.len() == 0 {
        Map::empty()
    } else {
        data_map(v.drop_last()).insert(v.last().0@, v.last().1)
    }
}

/// Applying the updates `a`, then `b`, is applying `b` over `a`.
pub proof fn lemma_data_map_concat(a: Seq<(String, serde_json::Value)>, b: Seq<(String, serde_json::Value)>)
    ensures
        data_map(a + b) == data_map(a).union_prefer_right(data_map(b)),
    decreases b.len(),
{
    if b.len() == 0 {
        assert(a + b =~= a);
        assert(data_map(a).union_prefer_right(data_map(b)) =~= data_map(a));
    } else {
        lemma_data_map_concat(a, b.drop_last());
        assert((a + b).drop_last() =~= a + b.drop_last());
        assert((a + b).last() == b.last());
        assert(data_map(a + b) =~= data_map(a).union_prefer_right(data_map(b)));
    }
}

/// The context of an event.
#[derive(Debug)]
pub struct HookContext {
    pub event: HookEvent,
    pub task_id: Option<String>,
    pub url: Option<String>,
    pub plugin_id: Option<String>,
    /// Extra data, as (key, value) pairs; a later pair overrides an earlier
    /// one with the same key.
    pub data: Vec<(String, serde_json::Value)>,
}

/// The answer of a handler, and of the hook system.
#[derive(Debug)]
pub struct HookResult {
    /// Whether the operation goes on.
    pub proceed: bool,
    /// Why it was stopped.
    pub reason: Option<String>,
    /// Data to change, as (key, value) updates applied in order.
    pub modified_data: Option<Vec<(String, serde_json::Value)>>,
    /// The error a handler reported.
    pub error: Option<String>,
}

pub struct HookResultView {
    pub proceed: bool,
    pub reason: Option<Seq<char>>,
    pub modified_data: Option<Map<Seq<char>, serde_json::Value>>,
    pub error: Option<Seq<char>>,
}

impl View for HookResult {
    type V = HookResultView;

    open spec fn view(&self) -> HookResultView {
        HookResultView {
            proceed: self.proceed,
            reason: opt_view(self.reason),
            modified_data: match self.modified_data {
                Some(d) => Some(data_map(d@)),
                None => None,
            },
            error: opt_view(self.error),
        }
    }
}

impl Default for HookResult {
    /// An answer that does not go on and gives no reason, data or error.
    fn default() -> (r: Self)
        ensures
            r@ == (HookResultView { proceed: false, reason: None, modified_data: None, error: None }),
    {
        HookResult { proceed: false, reason: None, modified_data: None, error: None }
    }
}

/// The answer that lets the operation go on unchanged.
pub open spec fn continue_view() -> HookResultView {
    HookResultView { proceed: true, reason: None, modified_data: None, error: None }
}

impl HookResult {
    /// Go on.
    pub fn continue_() -> (r: Self)
        ensures
            r@ == continue_view(),
    {
        HookResult { proceed: true, reason: None, modified_data: None, error: None }
    }

    /// Stop, for `reason`.
    pub fn stop(reason: String) -> (r: Self)
        ensures
            r@ == (HookResultView { proceed: false, reason: Some(reason@), modified_data: None, error: None }),
    {
        HookResult { proceed: false, reason: Some(reason), modified_data: None, error: None }
    }

    /// Go on with the data changed by `data`.
    pub fn modify(data: Vec<(String, serde_json::Value)>) -> (r: Self)
        ensures
            r@ == (HookResultView { proceed: true, reason: None, modified_data: Some(data_map(data@)), error: None }),
    {
        HookResult { proceed: true, reason: None, modified_data: Some(data), error: None }
    }
}

/// A hook handler, written by the users of the hook system. What a handler
/// answers is its own affair: the hook system states what it does with
/// whatever answers its handlers give.
pub trait HookHandler {
    /// Handles an event; an error is reported as its message.
    fn handle(&self, event: HookEvent, ctx: &HookContext) -> Result<HookResult, String>;

    /// The name of the handler.
    fn name(&self) -> &'static str;

    /// The priority of the handler.
    fn priority(&self) -> (r: HookPriority)
        default_ensures
            r == HookPriority::Normal,
    {
        HookPriority::Normal
    }
}

/// Call statistics of an event.
#[derive(Clone, Copy, Debug, PartialEq, Eq, Structural)]
pub struct HookStats {
    pub call_count: u64,
    pub error_count: u64,
    pub total_duration_ms: u64,
}

impl Default for HookStats {
    /// No calls, no errors, no time.
    fn default() -> (r: Self)
        ensures
            r == (HookStats { call_count: 0, error_count: 0, total_duration_ms: 0 }),
    {
        HookStats { call_count: 0, error_count: 0, total_duration_ms: 0 }
    }
}

/// `x + 1` in 64-bit wrapping arithmetic.
pub open spec fn wrap_inc(x: u64) -> u64 {
    if x == u64::MAX {
        0
    } else {
        (x + 1) as u64
    }
}

/// The state of a run of the handlers of an event.
pub struct RunState {
    /// Whether every handler so far let the operation go on.
    pub proceed: bool,
    pub reason: Option<Seq<char>>,
    /// The data changes collected so far.
    pub merged: Option<Map<Seq<char>, serde_json::Value>>,
    /// The statistics of the event.
    pub stats: HookStats,
    /// Whether the statistics of the event were updated.
    pub touched: bool,
}

/// What a handler's outcome means: an error lets the operation go on and
/// records the error.
pub open spec fn as_result(out: Result<HookResultView, Seq<char>>) -> HookResultView {
    match out {
        Ok(r) => r,
        Err(e) => HookResultView { proceed: true, reason: None, modified_data: None, error: Some(e) },
    }
}

/// The reason given for a handler named `name` that stopped without one.
pub open spec fn blocked_reason(name: Seq<char>) -> Seq<char> {
    "被 "@ + name + " 阻止"@
}

/// One step of a run: the handler's data changes are merged over those
/// collected so far; a handler that does not proceed stops the run, with its
/// reason or `blocked_reason` of its name; one that proceeds is counted in
/// the statistics, with its error if it has one.
pub open spec fn run_step(s: RunState, r: HookResultView, name: Seq<char>) -> RunState {
    let merged = match r.modified_data {
        Some(m) => Some(
            match s.merged {
                Some(ex) => ex.union_prefer_right(m),
                None => m,
            },
        ),
        None => s.merged,
    };
    if !r.proceed {
        RunState {
            proceed: false,
            reason: match r.reason {
                Some(x) => Some(x),
                None => Some(blocked_reason(name)),
            },
            merged,
            stats: s.stats,
            touched: s.touched,
        }
    } else {
        RunState {
            proceed: true,
            reason: s.reason,
            merged,
            stats: HookStats {
                call_count: wrap_inc(s.stats.call_count),
                error_count: if r.error is Some {
                    wrap_inc(s.stats.error_count)
                } else {
                    s.stats.error_count
                },
                total_duration_ms: s.stats.total_duration_ms,
            },
            touched: true,
        }
    }
}

/// The state a run starts from: going on, nothing stopped or changed, the
/// statistics `start`, untouched.
pub open spec fn run_start(start: HookStats) -> RunState {
    RunState { proceed: true, reason: None, merged: None, stats: start, touched: false }
}

/// The run over the outcomes `outs` of the handlers, in order, each an
/// answer (with an error read as `as_result` reads it) and the name the
/// handler gave; outcomes after one that stops change nothing.
pub open spec fn run_outcomes(outs: Seq<(HookResultView, Seq<char>)>, start: HookStats) -> RunState
    decreases outs.len(),
{
    if outs.len() == 0 {
        run_start(start)
    } else {
        let s = run_outcomes(outs.drop_last(), start);
        if !s.proceed {
            s
        } else {
            run_step(s, outs.last().0, outs.last().1)
        }
    }
}

/// `a` is an answer handler `h` can give to `event` with `ctx`: what its
/// `handle` can return, read as `as_result` reads it.
pub open spec fn can_answer<H: HookHandler>(h: H, event: HookEvent, ctx: &HookContext, a: HookResultView) -> bool {
    exists|o: Result<HookResult, String>| #[trigger] call_ensures(H::handle, (&h, event, ctx), o) && a == as_result(outcome_view(o))
}

/// `n` is a name handler `h` can give: what its `name` can return.
pub open spec fn can_name<H: HookHandler>(h: H, n: Seq<char>) -> bool {
    exists|nm: &'static str| #[trigger] call_ensures(H::name, (&h,), nm) && n == nm@
}

/// `outs` are answers that the handlers `hs`, taken in order, can give to
/// `event` with `ctx`, and where one stops the run, its name is one that
/// handler can give.
pub open spec fn answers_of<H: HookHandler>(
    outs: Seq<(HookResultView, Seq<char>)>,
    hs: Seq<H>,
    event: HookEvent,
    ctx: &HookContext,
) -> bool {
    &&& outs.len() <= hs.len()
    &&& forall|k: int| 0 <= k < outs.len() ==> can_answer(hs[k], event, ctx, #[trigger] outs[k].0)
    &&& forall|k: int| 0 <= k < outs.len() && !outs[k].0.proceed ==> can_name(hs[k], #[trigger] outs[k].1)
}

/// `outs` are the outcomes of a run over `n` handlers: the handlers run in
/// order, each after one that let the operation go on, until one stops it
/// or all have run.
pub open spec fn is_run_of(outs: Seq<(HookResultView, Seq<char>)>, n: nat) -> bool {
    &&& outs.len() <= n
    &&& forall|k: int| 0 <= k < outs.len() - 1 ==> (#[trigger] outs[k]).0.proceed
    &&& outs.len() < n ==> outs.len() > 0 && !outs.last().0.proceed
}

/// The statistics of an event that has none yet.
pub open spec fn zero_stats() -> HookStats {
    HookStats { call_count: 0, error_count: 0, total_duration_ms: 0 }
}

/// The answer of the hook system for a completed run.
pub open spec fn run_result(s: RunState) -> HookResultView {
    HookResultView { proceed: s.proceed, reason: s.reason, modified_data: s.merged, error: None }
}

/// The position at which a handler of priority `p` joins a list with
/// priorities `ps`: before the first handler of higher priority, else last.
pub open spec fn insert_position(ps: Seq<HookPriority>, p: HookPriority, i: int) -> int
    decreases ps.len() - i,
{
    if i < 0 || i >= ps.len() {
        ps.len() as int
    } else if priority_value(ps[i]) > priority_value(p) {
        i
    } else {
        insert_position(ps, p, i + 1)
    }
}

/// Where a new handler of priority `p` joins (searching from `i`): after
/// every handler of lower or equal priority, so handlers of equal priority
/// run in order of registration, and before the first of higher priority.
pub proof fn lemma_insert_position(ps: Seq<HookPriority>, p: HookPriority, i: int)
    requires
        0 <= i <= ps.len(),
    ensures
        i <= insert_position(ps, p, i) <= ps.len(),
        forall|k: int| i <= k < insert_position(ps, p, i) ==> priority_value(#[trigger] ps[k]) <= priority_value(p),
        insert_position(ps, p, i) < ps.len() ==> priority_value(ps[insert_position(ps, p, i)]) > priority_value(p),
    decreases ps.len() - i,
{
    if i < ps.len() && priority_value(ps[i]) <= priority_value(p) {
        lemma_insert_position(ps, p, i + 1);
    }
}

/// The priorities are in non-decreasing order of value.
pub open spec fn sorted_by_priority(ps: Seq<HookPriority>) -> bool {
    forall|a: int, b: int| 0 <= a <= b < ps.len() ==> priority_value(#[trigger] ps[a]) <= priority_value(#[trigger] ps[b])
}

/// The value stored for `k` in an association list (the last pair for `k`).
pub open spec fn lookup<K, V>(s: Seq<(K, V)>, k: K) -> Option<V>
    decreases s.len(),
{
    if s.len() == 0 {
        None
    } else if s.last().0 == k {
        Some(s.last().1)
    } else {
        lookup(s.drop_last(), k)
    }
}

/// No key occurs twice.
pub open spec fn keys_distinct<K, V>(s: Seq<(K, V)>) -> bool {
    forall|a: int, b: int| 0 <= a < s.len() && 0 <= b < s.len() && a != b ==> #[trigger] s[a].0 != #[trigger] s[b].0
}

pub proof fn lemma_lookup_index<K, V>(s: Seq<(K, V)>, k: K)
    requires
        keys_distinct(s),
    ensures
        lookup(s, k) is None <==> forall|i: int| 0 <= i < s.len() ==> #[trigger] s[i].0 != k,
        forall|i: int| 0 <= i < s.len() && #[trigger] s[i].0 == k ==> lookup(s, k) == Some(s[i].1),
    decreases s.len(),
{
    if s.len() > 0 {
        let t = s.drop_last();
        assert(keys_distinct(t));
        lemma_lookup_index(t, k);
        assert forall|i: int| 0 <= i < s.len() && #[trigger] s[i].0 == k implies lookup(s, k) == Some(s[i].1) by {
            if i < s.len() - 1 {
                assert(t[i] == s[i]);
            }
        }
        if s.last().0 != k {
            assert forall|i: int| 0 <= i < s.len() - 1 implies #[trigger] s[i].0 == t[i].0 by {}
        }
    }
}

pub proof fn lemma_insert_sorted(ps: Seq<HookPriority>, p: HookPriority)
    requires
        sorted_by_priority(ps),
    ensures
        sorted_by_priority(ps.insert(insert_position(ps, p, 0), p)),
{
    lemma_insert_position(ps, p, 0);
    let k = insert_position(ps, p, 0);
    let qs = ps.insert(k, p);
    assert forall|a: int, b: int| 0 <= a <= b < qs.len() implies priority_value(#[trigger] qs[a]) <= priority_value(#[trigger] qs[b]) by {
        if k < ps.len() {
            assert(priority_value(ps[k]) > priority_value(p));
        }
        if a < k && b < k {
            assert(qs[a] == ps[a] && qs[b] == ps[b]);
        } else if a < k && b == k {
            assert(qs[a] == ps[a]);
        } else if a < k {
            assert(qs[a] == ps[a] && qs[b] == ps[b - 1]);
        } else if a == k && b > k {
            assert(qs[b] == ps[b - 1]);
            assert(priority_value(ps[k]) <= priority_value(ps[b - 1]));
        } else if a > k {
            assert(qs[a] == ps[a - 1] && qs[b] == ps[b - 1]);
        }
    }
}

struct HandlerList<H> {
    event: HookEvent,
    handlers: Vec<(H, HookPriority)>,
}

/// The hook system: for each event, its handlers in priority order, and its
/// call statistics.
pub struct HookSystem<H: HookHandler> {
    lists: Vec<HandlerList<H>>,
    stats: Vec<(HookEvent, HookStats)>,
}

spec fn handler_list_view<H>(l: HandlerList<H>) -> (HookEvent, Seq<(H, HookPriority)>) {
    (l.event, l.handlers@)
}

pub open spec fn firsts<H>(s: Seq<(H, HookPriority)>) -> Seq<H> {
    s.map_values(|x: (H, HookPriority)| x.0)
}

pub open spec fn seconds<H>(s: Seq<(H, HookPriority)>) -> Seq<HookPriority> {
    s.map_values(|x: (H, HookPriority)| x.1)
}

impl<H: HookHandler> HookSystem<H> {
    /// The registrations, one list per event, in order of first registration.
    pub closed spec fn lists_view(&self) -> Seq<(HookEvent, Seq<(H, HookPriority)>)> {
        self.lists@.map_values(|l: HandlerList<H>| handler_list_view(l))
    }

    /// The statistics, one entry per event that has any.
    pub closed spec fn stats_view(&self) -> Seq<(HookEvent, HookStats)> {
        self.stats@
    }

    /// The handlers of event `e`, in the order they run.
    pub open spec fn handlers_of(&self, e: HookEvent) -> Seq<H> {
        match lookup(self.lists_view(), e) {
            Some(l) => firsts(l),
            None => Seq::empty(),
        }
    }

    /// The priorities of the handlers of event `e`, in the order they run.
    pub open spec fn priorities_of(&self, e: HookEvent) -> Seq<HookPriority> {
        match lookup(self.lists_view(), e) {
            Some(l) => seconds(l),
            None => Seq::empty(),
        }
    }

    /// The statistics of event `e`, once a handler of it has run.
    pub open spec fn stats_of(&self, e: HookEvent) -> Option<HookStats> {
        lookup(self.stats_view(), e)
    }

    /// The events that have handlers.
    pub open spec fn events(&self) -> Seq<HookEvent> {
        self.lists_view().map_values(|l: (HookEvent, Seq<(H, HookPriority)>)| l.0)
    }

    #[verifier::type_invariant]
    closed spec fn wf(self) -> bool {
        &&& keys_distinct(self.lists_view())
        &&& keys_distinct(self.stats@)
        &&& forall|i: int| 0 <= i < self.lists@.len() ==> sorted_by_priority(
            #[trigger] seconds(self.lists@[i].handlers@),
        )
    }

    /// A hook system with no handlers.
    pub fn new() -> (r: Self)
        ensures
            r.events().len() == 0,
            forall|e: HookEvent| r.handlers_of(e).len() == 0 && r.stats_of(e) is None,
    {
        let r = HookSystem { lists: Vec::new(), stats: Vec::new() };
        assert(r.lists_view() =~= Seq::empty());
        r
    }
}


impl<H: HookHandler> Default for HookSystem<H> {
    /// A hook system with no handlers.
    fn default() -> (r: Self)
        ensures
            r.events().len() == 0,
            forall|e: HookEvent| r.handlers_of(e).len() == 0 && r.stats_of(e) is None,
    {
        HookSystem::new()
    }
}

/// `b` holds clones of the handlers of `a`, with the same priorities.
pub open spec fn cloned_handlers<H: Clone>(a: Seq<(H, HookPriority)>, b: Seq<(H, HookPriority)>) -> bool {
    &&& b.len() == a.len()
    &&& seconds(b) == seconds(a)
    &&& forall|j: int| 0 <= j < a.len() ==> cloned(#[trigger] a[j].0, b[j].0)
}

fn clone_handlers<H: HookHandler + Clone>(hs: &Vec<(H, HookPriority)>) -> (r: Vec<(H, HookPriority)>)
    ensures
        cloned_handlers(hs@, r@),
{
    let mut r: Vec<(H, HookPriority)> = Vec::new();
    let mut i: usize = 0;
    while i < hs.len()
        invariant
            i <= hs@.len(),
            r@.len() == i,
            forall|j: int| 0 <= j < i ==> (#[trigger] r@[j]).1 == hs@[j].1 && cloned(hs@[j].0, r@[j].0),
        decreases hs@.len() - i,
    {
        let h = hs[i].0.clone();
        let pr = hs[i].1;
        r.push((h, pr));
        i = i + 1;
    }
    assert(seconds(r@) =~= seconds(hs@));
    assert forall|j: int| 0 <= j < hs@.len() implies cloned(#[trigger] hs@[j].0, r@[j].0) by {
        assert(r@[j].1 == hs@[j].1);
    }
    r
}

impl<H: HookHandler + Clone> Clone for HookSystem<H> {
    /// A copy with clones of the handlers, in the same order and with the
    /// same priorities, and the same statistics.
    fn clone(&self) -> (r: Self)
        ensures
            r.lists_view().len() == self.lists_view().len(),
            forall|i: int| 0 <= i < self.lists_view().len() ==> (#[trigger] r.lists_view()[i]).0 == self.lists_view()[i].0
                && cloned_handlers(self.lists_view()[i].1, r.lists_view()[i].1),
            r.stats_view() == self.stats_view(),
    {
        proof {
            use_type_invariant(self);
        }
        let mut lists: Vec<HandlerList<H>> = Vec::new();
        let mut i: usize = 0;
        while i < self.lists.len()
            invariant
                i <= self.lists@.len(),
                lists@.len() == i,
                forall|j: int| 0 <= j < i ==> (#[trigger] lists@[j]).event == self.lists@[j].event
                    && cloned_handlers(self.lists@[j].handlers@, lists@[j].handlers@),
            decreases self.lists@.len() - i,
        {
            let l = &self.lists[i];
            lists.push(HandlerList { event: l.event, handlers: clone_handlers(&l.handlers) });
            i = i + 1;
        }
        let mut stats: Vec<(HookEvent, HookStats)> = Vec::new();
        let mut k: usize = 0;
        while k < self.stats.len()
            invariant
                k <= self.stats@.len(),
                stats@ == self.stats@.subrange(0, k as int),
            decreases self.stats@.len() - k,
        {
            stats.push(self.stats[k]);
            k = k + 1;
            assert(stats@ =~= self.stats@.subrange(0, k as int));
        }
        proof {
            assert(stats@ =~= self.stats@);
            let lv = lists@.map_values(|l: HandlerList<H>| handler_list_view(l));
            assert(keys_distinct(lv)) by {
                assert forall|a: int, b: int| 0 <= a < lv.len() && 0 <= b < lv.len() && a != b implies #[trigger] lv[a].0 != #[trigger] lv[b].0 by {
                    assert(lv[a].0 == self.lists_view()[a].0 && lv[b].0 == self.lists_view()[b].0);
                }
            }
            assert forall|k: int| 0 <= k < lists@.len() implies sorted_by_priority(#[trigger] seconds(lists@[k].handlers@)) by {
                assert(seconds(lists@[k].handlers@) == seconds(self.lists@[k].handlers@));
            }
        }
        HookSystem { lists, stats }
    }
}

impl<H: HookHandler> HookSystem<H> {
    fn find_list(&self, event: HookEvent) -> (r: Option<usize>)
        ensures
            match r {
                Some(i) => i < self.lists_view().len() && self.lists_view()[i as int].0 == event,
                None => forall|i: int| 0 <= i < self.lists_view().len() ==> #[trigger] self.lists_view()[i].0 != event,
            },
    {
        let mut i: usize = 0;
        while i < self.lists.len()
            invariant
                i <= self.lists@.len(),
                self.lists_view().len() == self.lists@.len(),
                forall|k: int| 0 <= k < i ==> #[trigger] self.lists_view()[k].0 != event,
            decreases self.lists@.len() - i,
        {
            assert(self.lists_view()[i as int] == handler_list_view(self.lists@[i as int]));
            if self.lists[i].event == event {
                return Some(i);
            }
            i = i + 1;
        }
        None
    }

    fn find_stats(&self, event: HookEvent) -> (r: Option<usize>)
        ensures
            match r {
                Some(i) => i < self.stats_view().len() && self.stats_view()[i as int].0 == event,
                None => forall|i: int| 0 <= i < self.stats_view().len() ==> #[trigger] self.stats_view()[i].0 != event,
            },
    {
        let mut i: usize = 0;
        while i < self.stats.len()
            invariant
                i <= self.stats@.len(),
                self.stats_view() == self.stats@,
                forall|k: int| 0 <= k < i ==> #[trigger] self.stats_view()[k].0 != event,
            decreases self.stats@.len() - i,
        {
            if self.stats[i].0 == event {
                return Some(i);
            }
            i = i + 1;
        }
        None
    }

    /// Registers `handler` for `event`, asking it once for its priority `p`:
    /// it joins the handlers of the event before the first one of higher
    /// priority, or last, so the handlers stay in order of priority and
    /// handlers of equal priority run in order of registration.
    pub fn register(&mut self, event: HookEvent, handler: H)
        ensures
            exists|p: HookPriority|
                #![trigger insert_position(old(self).priorities_of(event), p, 0)]
                call_ensures(H::priority, (&handler,), p)
                && final(self).priorities_of(event) == old(self).priorities_of(event).insert(
                    insert_position(old(self).priorities_of(event), p, 0),
                    p,
                ) && final(self).handlers_of(event) == old(self).handlers_of(event).insert(
                    insert_position(old(self).priorities_of(event), p, 0),
                    handler,
                ),
            sorted_by_priority(final(self).priorities_of(event)),
            forall|e: HookEvent| e != event ==> final(self).handlers_of(e) == old(self).handlers_of(e)
                && final(self).priorities_of(e) == old(self).priorities_of(e),
            forall|e: HookEvent| final(self).stats_of(e) == old(self).stats_of(e),
            old(self).events().contains(event) ==> final(self).events() == old(self).events(),
            !old(self).events().contains(event) ==> final(self).events() == old(self).events().push(event),
    {
        proof {
            use_type_invariant(&*self);
            lemma_lookup_index(self.lists_view(), event);
        }
        let ghost old_lv = self.lists_view();
        let p = handler.priority();
        assert(call_ensures(H::priority, (&handler,), p));
        let found = self.find_list(event);
        let mut lists: Vec<HandlerList<H>> = Vec::new();
        std::mem::swap(&mut lists, &mut self.lists);
        assert(lists@.map_values(|l: HandlerList<H>| handler_list_view(l)) == old_lv);
        match found {
            Some(i) => {
                let mut l = lists.remove(i);
                let ghost old_hs = l.handlers@;
                assert(old_lv[i as int] == handler_list_view(l));
                assert(sorted_by_priority(seconds(old_hs)));
                let mut pos: usize = 0;
                while pos < l.handlers.len() && l.handlers[pos].1.value() <= p.value()
                    invariant
                        pos <= l.handlers@.len(),
                        l.handlers@ == old_hs,
                        insert_position(seconds(old_hs), p, 0) == insert_position(seconds(old_hs), p, pos as int),
                    decreases l.handlers@.len() - pos,
                {
                    assert(seconds(old_hs)[pos as int] == old_hs[pos as int].1);
                    pos = pos + 1;
                }
                proof {
                    if pos < old_hs.len() {
                        assert(seconds(old_hs)[pos as int] == old_hs[pos as int].1);
                    }
                    assert(insert_position(seconds(old_hs), p, 0) == pos as int);
                    lemma_insert_sorted(seconds(old_hs), p);
                }
                l.handlers.insert(pos, (handler, p));
                assert(seconds(l.handlers@) =~= seconds(old_hs).insert(pos as int, p));
                assert(firsts(l.handlers@) =~= firsts(old_hs).insert(pos as int, handler));
                let ghost nl = handler_list_view(l);
                lists.insert(i, l);
                let ghost nlv = old_lv.update(i as int, nl);
                assert(lists@.map_values(|l: HandlerList<H>| handler_list_view(l)) =~= nlv);
                proof {
                    assert forall|a: int, b: int| 0 <= a < nlv.len() && 0 <= b < nlv.len() && a != b implies #[trigger] nlv[a].0 != #[trigger] nlv[b].0 by {
                        assert(nlv[a].0 == old_lv[a].0 && nlv[b].0 == old_lv[b].0);
                    }
                    lemma_lookup_index(nlv, event);
                    assert(nlv[i as int].0 == event);
                    assert(lookup(nlv, event) == Some(nl.1));
                    assert(lookup(old_lv, event) == Some(old_hs));
                    assert(seconds(nl.1) == seconds(old_hs).insert(insert_position(seconds(old_hs), p, 0), p));
                    assert(firsts(nl.1) == firsts(old_hs).insert(insert_position(seconds(old_hs), p, 0), handler));
                    assert forall|e: HookEvent| e != event implies lookup(nlv, e) == lookup(old_lv, e) by {
                        lemma_lookup_index(nlv, e);
                        lemma_lookup_index(old_lv, e);
                        if lookup(old_lv, e) is Some {
                            let j = choose|j: int| 0 <= j < old_lv.len() && #[trigger] old_lv[j].0 == e;
                            assert(nlv[j] == old_lv[j]);
                        } else {
                            assert forall|j: int| 0 <= j < nlv.len() implies #[trigger] nlv[j].0 != e by {
                                assert(nlv[j].0 == old_lv[j].0);
                            }
                        }
                    }
                    assert(nlv.map_values(|l: (HookEvent, Seq<(H, HookPriority)>)| l.0) =~= old_lv.map_values(|l: (HookEvent, Seq<(H, HookPriority)>)| l.0));
                    assert(old_lv.map_values(|l: (HookEvent, Seq<(H, HookPriority)>)| l.0)[i as int] == event);
                    assert forall|j: int| 0 <= j < lists@.len() implies sorted_by_priority(#[trigger] seconds(lists@[j].handlers@)) by {
                        if j != i {
                            assert(lists@[j].handlers@ == nlv[j].1);
                            assert(nlv[j] == old_lv[j]);
                        }
                    }
                }
            },
            None => {
                let mut hs: Vec<(H, HookPriority)> = Vec::new();
                hs.push((handler, p));
                let l = HandlerList { event, handlers: hs };
                let ghost nl = handler_list_view(l);
                lists.push(l);
                let ghost nlv = old_lv.push(nl);
                assert(lists@.map_values(|l: HandlerList<H>| handler_list_view(l)) =~= nlv);
                proof {
                    assert forall|a: int, b: int| 0 <= a < nlv.len() && 0 <= b < nlv.len() && a != b implies #[trigger] nlv[a].0 != #[trigger] nlv[b].0 by {
                        if a < old_lv.len() {
                            assert(nlv[a] == old_lv[a]);
                        }
                        if b < old_lv.len() {
                            assert(nlv[b] == old_lv[b]);
                        }
                    }
                    lemma_lookup_index(nlv, event);
                    assert(nlv[old_lv.len() as int].0 == event);
                    assert(seconds(nl.1) =~= seq![p]);
                    assert(firsts(nl.1) =~= seq![handler]);
                    assert(insert_position(Seq::<HookPriority>::empty(), p, 0) == 0);
                    assert(Seq::<HookPriority>::empty().insert(0, p) =~= seq![p]);
                    assert(Seq::<H>::empty().insert(0, handler) =~= seq![handler]);
                    assert forall|e: HookEvent| e != event implies lookup(nlv, e) == lookup(old_lv, e) by {
                        assert(nlv.drop_last() =~= old_lv);
                    }
                    assert(nlv.map_values(|l: (HookEvent, Seq<(H, HookPriority)>)| l.0) =~= old_lv.map_values(|l: (HookEvent, Seq<(H, HookPriority)>)| l.0).push(event));
                    assert(!old_lv.map_values(|l: (HookEvent, Seq<(H, HookPriority)>)| l.0).contains(event));
                    assert forall|j: int| 0 <= j < lists@.len() implies sorted_by_priority(#[trigger] seconds(lists@[j].handlers@)) by {
                        if j < old_lv.len() {
                            assert(lists@[j].handlers@ == nlv[j].1);
                            assert(nlv[j] == old_lv[j]);
                        }
                    }
                }
            },
        }
        self.lists = lists;
        assert(self.priorities_of(event) == old(self).priorities_of(event).insert(insert_position(old(self).priorities_of(event), p, 0), p));
        assert(self.handlers_of(event) == old(self).handlers_of(event).insert(insert_position(old(self).priorities_of(event), p, 0), handler));
    }
}


/// The message for a handler named `name` that stopped without a reason.
fn blocked_message(name: &str) -> (r: String)
    ensures
        r@ == blocked_reason(name@),
{
    let mut m = String::from_str("被 ");
    m.append(name);
    m.append(" 阻止");
    m
}

/// The statistics a run of an event starts from.
pub open spec fn start_stats(s: Option<HookStats>) -> HookStats {
    match s {
        Some(x) => x,
        None => zero_stats(),
    }
}

/// What a handler's outcome reads as.
pub open spec fn outcome_view(out: Result<HookResult, String>) -> Result<HookResultView, Seq<char>> {
    match out {
        Ok(r) => Ok(r@),
        Err(e) => Err(e@),
    }
}

/// The answer a handler's outcome counts as: an error lets the operation
/// go on and records the error.
pub fn outcome_answer(out: Result<HookResult, String>) -> (r: HookResult)
    ensures
        r@ == as_result(outcome_view(out)),
{
    match out {
        Ok(r) => r,
        Err(e) => HookResult { proceed: true, reason: None, modified_data: None, error: Some(e) },
    }
}

/// A run of the handlers of an event in progress.
pub struct HookRun {
    proceed: bool,
    reason: Option<String>,
    merged: Option<Vec<(String, serde_json::Value)>>,
    stats: HookStats,
    touched: bool,
}

impl View for HookRun {
    type V = RunState;

    closed spec fn view(&self) -> RunState {
        RunState {
            proceed: self.proceed,
            reason: opt_view(self.reason),
            merged: match self.merged {
                Some(m) => Some(data_map(m@)),
                None => None,
            },
            stats: self.stats,
            touched: self.touched,
        }
    }
}

impl HookRun {
    /// A run from the statistics `start`.
    pub fn new(start: HookStats) -> (r: Self)
        ensures
            r@ == run_start(start),
    {
        HookRun { proceed: true, reason: None, merged: None, stats: start, touched: false }
    }

    /// Whether the operation still goes on.
    pub fn proceeds(&self) -> (r: bool)
        ensures
            r == self@.proceed,
    {
        self.proceed
    }

    /// Takes in the answer `res` of the handler named `name` (the name
    /// matters only for an answer that stops without a reason); a run that
    /// has stopped takes no more answers.
    pub fn step(&mut self, res: HookResult, name: &str)
        requires
            old(self)@.proceed,
        ensures
            final(self)@ == run_step(old(self)@, res@, name@),
    {
        let HookResult { proceed: rp, reason: rr, modified_data: rm, error: re } = res;
        match rm {
            Some(m) => {
                let mut m = m;
                let mut merged: Option<Vec<(String, serde_json::Value)>> = None;
                std::mem::swap(&mut merged, &mut self.merged);
                self.merged = match merged {
                    Some(ex) => {
                        let mut ex = ex;
                        proof {
                            lemma_data_map_concat(ex@, m@);
                        }
                        ex.append(&mut m);
                        Some(ex)
                    },
                    None => Some(m),
                };
            },
            None => {},
        }
        if !rp {
            self.proceed = false;
            self.reason = match rr {
                Some(x) => Some(x),
                None => Some(blocked_message(name)),
            };
        } else {
            let errors = if re.is_some() {
                self.stats.error_count.wrapping_add(1)
            } else {
                self.stats.error_count
            };
            self.stats = HookStats {
                call_count: self.stats.call_count.wrapping_add(1),
                error_count: errors,
                total_duration_ms: self.stats.total_duration_ms,
            };
            self.touched = true;
        }
    }

    /// The answer of the run, its statistics, and whether any handler was
    /// counted.
    pub fn finish(self) -> (r: (HookResult, HookStats, bool))
        ensures
            r.0@ == run_result(self@),
            r.1 == self@.stats,
            r.2 == self@.touched,
    {
        let HookRun { proceed, reason, merged, stats, touched } = self;
        (HookResult { proceed, reason, modified_data: merged, error: None }, stats, touched)
    }
}

impl<H: HookHandler> HookSystem<H> {
    /// Runs the handlers of `event` in order from statistics `start`, and
    /// returns the combined answer, the statistics after the run, and
    /// whether any handler was counted.
    fn run_handlers(&self, event: HookEvent, ctx: &HookContext, start: HookStats) -> (r: (HookResult, HookStats, bool))
        ensures
            exists|outs: Seq<(HookResultView, Seq<char>)>| {
                &&& is_run_of(outs, self.handlers_of(event).len())
                &&& answers_of(outs, self.handlers_of(event), event, ctx)
                &&& r.0@ == run_result(#[trigger] run_outcomes(outs, start))
                &&& r.1 == run_outcomes(outs, start).stats
                &&& r.2 == run_outcomes(outs, start).touched
            },
    {
        proof {
            use_type_invariant(self);
            lemma_lookup_index(self.lists_view(), event);
        }
        let found = self.find_list(event);
        match found {
            None => {
                assert(self.handlers_of(event) =~= Seq::<H>::empty());
                let run = HookRun::new(start);
                let r = run.finish();
                assert(is_run_of(Seq::<(HookResultView, Seq<char>)>::empty(), 0));
                assert(run_outcomes(Seq::<(HookResultView, Seq<char>)>::empty(), start) == run_start(start));
                assert(answers_of(Seq::<(HookResultView, Seq<char>)>::empty(), self.handlers_of(event), event, ctx));
                r
            },
            Some(li) => {
                let hs = &self.lists[li].handlers;
                assert(self.lists_view()[li as int] == handler_list_view(self.lists@[li as int]));
                assert(firsts(hs@) == self.handlers_of(event));
                let ghost hseq = firsts(hs@);
                let n = hs.len();
                let mut run = HookRun::new(start);
                let ghost mut outs: Seq<(HookResultView, Seq<char>)> = Seq::empty();
                let mut i: usize = 0;
                while i < n && run.proceeds()
                    invariant
                        n == hs@.len(),
                        i <= n,
                        outs.len() == i,
                        run@ == run_outcomes(outs, start),
                        forall|k: int| 0 <= k < outs.len() - 1 ==> (#[trigger] outs[k]).0.proceed,
                        run@.proceed ==> forall|k: int| 0 <= k < outs.len() ==> (#[trigger] outs[k]).0.proceed,
                        !run@.proceed ==> outs.len() > 0 && !outs.last().0.proceed,
                        hseq == firsts(hs@),
                        answers_of(outs, hseq, event, ctx),
                    decreases n - i,
                {
                    let h = &hs[i].0;
                    assert(hseq[i as int] == *h);
                    let out = h.handle(event, ctx);
                    assert(call_ensures(H::handle, (h, event, ctx), out));
                    let res = outcome_answer(out);
                    let name = if res.proceed {
                        ""
                    } else {
                        h.name()
                    };
                    assert(!res@.proceed ==> call_ensures(H::name, (h,), name));
                    let ghost before = outs;
                    let ghost o = (res@, name@);
                    proof {
                        outs = outs.push(o);
                        assert(outs.drop_last() =~= before);
                        assert(outs.last() == o);
                        assert(can_answer(hseq[i as int], event, ctx, res@)) by {
                            assert(call_ensures(H::handle, (&hseq[i as int], event, ctx), out));
                        }
                        if !res@.proceed {
                            assert(can_name(hseq[i as int], name@)) by {
                                assert(call_ensures(H::name, (&hseq[i as int],), name));
                            }
                        }
                        assert forall|k: int| 0 <= k < outs.len() implies can_answer(hseq[k], event, ctx, #[trigger] outs[k].0) by {
                            if k < before.len() {
                                assert(outs[k] == before[k]);
                            }
                        }
                        assert forall|k: int| 0 <= k < outs.len() && !outs[k].0.proceed implies can_name(hseq[k], #[trigger] outs[k].1) by {
                            if k < before.len() {
                                assert(outs[k] == before[k]);
                            }
                        }
                        assert(answers_of(outs, hseq, event, ctx));
                    }
                    run.step(res, name);
                    assert forall|k: int| 0 <= k < outs.len() - 1 implies (#[trigger] outs[k]).0.proceed by {
                        assert(outs[k] == before[k]);
                    }
                    i = i + 1;
                }
                let r = run.finish();
                assert(is_run_of(outs, n as nat));
                r
            },
        }
    }
}

impl<H: HookHandler> HookSystem<H> {
    /// Triggers `event`: runs its handlers in order until one does not
    /// proceed, and answers with whether the operation goes on, the reason
    /// it was stopped, and the merged data changes. Each handler that
    /// proceeds is counted in the statistics of the event, with its error if
    /// it reported one; an event without handlers answers `continue_`.
    pub fn trigger(&mut self, event: HookEvent, ctx: &HookContext) -> (r: HookResult)
        ensures
            exists|outs: Seq<(HookResultView, Seq<char>)>| {
                &&& is_run_of(outs, old(self).handlers_of(event).len())
                &&& answers_of(outs, old(self).handlers_of(event), event, ctx)
                &&& r@ == run_result(#[trigger] run_outcomes(outs, start_stats(old(self).stats_of(event))))
                &&& final(self).stats_of(event) == if run_outcomes(outs, start_stats(old(self).stats_of(event))).touched {
                    Some(run_outcomes(outs, start_stats(old(self).stats_of(event))).stats)
                } else {
                    old(self).stats_of(event)
                }
            },
            forall|e: HookEvent| e != event ==> final(self).stats_of(e) == old(self).stats_of(e),
            forall|e: HookEvent| final(self).handlers_of(e) == old(self).handlers_of(e) && final(self).priorities_of(e) == old(self).priorities_of(e),
            final(self).events() == old(self).events(),
    {
        proof {
            use_type_invariant(&*self);
            lemma_lookup_index(self.stats_view(), event);
        }
        let ghost old_sv = self.stats_view();
        let sidx = self.find_stats(event);
        let start = match sidx {
            Some(k) => self.stats[k].1,
            None => HookStats { call_count: 0, error_count: 0, total_duration_ms: 0 },
        };
        let (res, st, touched) = self.run_handlers(event, ctx, start);
        let ghost outs = choose|outs: Seq<(HookResultView, Seq<char>)>| {
            &&& is_run_of(outs, self.handlers_of(event).len())
            &&& answers_of(outs, self.handlers_of(event), event, ctx)
            &&& res@ == run_result(#[trigger] run_outcomes(outs, start))
            &&& st == run_outcomes(outs, start).stats
            &&& touched == run_outcomes(outs, start).touched
        };
        if touched {
            let mut stats: Vec<(HookEvent, HookStats)> = Vec::new();
            std::mem::swap(&mut stats, &mut self.stats);
            match sidx {
                Some(k) => {
                    stats.set(k, (event, st));
                    let ghost nsv = old_sv.update(k as int, (event, st));
                    assert(stats@ =~= nsv);
                    proof {
                        assert forall|a: int, b: int| 0 <= a < nsv.len() && 0 <= b < nsv.len() && a != b implies #[trigger] nsv[a].0 != #[trigger] nsv[b].0 by {
                            assert(nsv[a].0 == old_sv[a].0 && nsv[b].0 == old_sv[b].0);
                        }
                        lemma_lookup_index(nsv, event);
                        assert(nsv[k as int].0 == event);
                        assert forall|e: HookEvent| e != event implies lookup(nsv, e) == lookup(old_sv, e) by {
                            lemma_lookup_index(nsv, e);
                            lemma_lookup_index(old_sv, e);
                            if lookup(old_sv, e) is Some {
                                let j = choose|j: int| 0 <= j < old_sv.len() && #[trigger] old_sv[j].0 == e;
                                assert(nsv[j] == old_sv[j]);
                            } else {
                                assert forall|j: int| 0 <= j < nsv.len() implies #[trigger] nsv[j].0 != e by {
                                    assert(nsv[j].0 == old_sv[j].0);
                                }
                            }
                        }
                    }
                },
                None => {
                    stats.push((event, st));
                    let ghost nsv = old_sv.push((event, st));
                    assert(stats@ =~= nsv);
                    proof {
                        assert forall|a: int, b: int| 0 <= a < nsv.len() && 0 <= b < nsv.len() && a != b implies #[trigger] nsv[a].0 != #[trigger] nsv[b].0 by {
                            if a < old_sv.len() {
                                assert(nsv[a] == old_sv[a]);
                            }
                            if b < old_sv.len() {
                                assert(nsv[b] == old_sv[b]);
                            }
                        }
                        assert forall|e: HookEvent| e != event implies lookup(nsv, e) == lookup(old_sv, e) by {
                            assert(nsv.drop_last() =~= old_sv);
                        }
                    }
                },
            }
            self.stats = stats;
        }
        proof {
            assert(start == start_stats(old(self).stats_of(event)));
            assert(self.stats_of(event) == if touched { Some(st) } else { old(self).stats_of(event) });
            assert(is_run_of(outs, old(self).handlers_of(event).len()));
            assert(answers_of(outs, old(self).handlers_of(event), event, ctx));
            assert(res@ == run_result(run_outcomes(outs, start_stats(old(self).stats_of(event)))));
        }
        res
    }

    /// Triggers `event` on a copy of the handlers, with no statistics
    /// recorded: its handlers run and are answered as in `trigger`, so with
    /// handlers that have one answer each it answers as `trigger` does.
    pub fn trigger_async(&self, event: HookEvent, ctx: HookContext) -> (r: HookResult)
        ensures
            exists|outs: Seq<(HookResultView, Seq<char>)>| {
                &&& is_run_of(outs, self.handlers_of(event).len())
                &&& answers_of(outs, self.handlers_of(event), event, &ctx)
                &&& r@ == run_result(#[trigger] run_outcomes(outs, zero_stats()))
            },
    {
        let start = HookStats { call_count: 0, error_count: 0, total_duration_ms: 0 };
        let (res, _st, _touched) = self.run_handlers(event, &ctx, start);
        proof {
            let outs = choose|outs: Seq<(HookResultView, Seq<char>)>| {
                &&& is_run_of(outs, self.handlers_of(event).len())
                &&& answers_of(outs, self.handlers_of(event), event, &ctx)
                &&& res@ == run_result(#[trigger] run_outcomes(outs, start))
                &&& _st == run_outcomes(outs, start).stats
                &&& _touched == run_outcomes(outs, start).touched
            };
            assert(start == zero_stats());
            assert(is_run_of(outs, self.handlers_of(event).len()) && answers_of(outs, self.handlers_of(event), event, &ctx)
                && res@ == run_result(run_outcomes(outs, zero_stats())));
        }
        res
    }

    /// The events that have handlers.
    pub fn registered_events(&self) -> (r: Vec<HookEvent>)
        ensures
            r@ == self.events(),
    {
        let mut r: Vec<HookEvent> = Vec::new();
        let mut i: usize = 0;
        while i < self.lists.len()
            invariant
                i <= self.lists@.len(),
                self.lists_view().len() == self.lists@.len(),
                r@ == self.events().subrange(0, i as int),
            decreases self.lists@.len() - i,
        {
            assert(self.lists_view()[i as int] == handler_list_view(self.lists@[i as int]));
            r.push(self.lists[i].event);
            i = i + 1;
            assert(r@ =~= self.events().subrange(0, i as int));
        }
        assert(self.events().subrange(0, i as int) =~= self.events());
        r
    }

    /// The statistics of `event`.
    pub fn get_stats(&self, event: HookEvent) -> (r: Option<&HookStats>)
        ensures
            match r {
                Some(s) => self.stats_of(event) == Some(*s),
                None => self.stats_of(event) is None,
            },
    {
        proof {
            use_type_invariant(self);
            lemma_lookup_index(self.stats_view(), event);
        }
        match self.find_stats(event) {
            Some(k) => Some(&self.stats[k].1),
            None => None,
        }
    }
}

/// A handler that logs each event it sees and lets it go on.
pub struct LogHook {
    prefix: String,
}

impl LogHook {
    pub fn new(prefix: &str) -> (r: Self)
        ensures
            r.prefix()@ == prefix@,
    {
        LogHook { prefix: String::from_str(prefix) }
    }

    /// The prefix of the log lines.
    pub closed spec fn prefix(&self) -> String {
        self.prefix
    }
}

impl HookHandler for LogHook {
    /// Lets every event go on.
    fn handle(&self, event: HookEvent, ctx: &HookContext) -> (r: Result<HookResult, String>)
        ensures
            r matches Ok(h) && h@ == continue_view(),
    {
        Ok(HookResult::continue_())
    }

    fn name(&self) -> (r: &'static str)
        ensures
            r@ == "log-hook"@,
    {
        "log-hook"
    }
}

/// A handler that counts the events it sees and lets them go on.
pub struct StatsHook {
    counter: std::sync::atomic::AtomicU64,
}

impl StatsHook {
    pub fn new() -> (r: Self) {
        StatsHook { counter: std::sync::atomic::AtomicU64::new(0) }
    }

    /// The number of events seen so far.
    pub fn count(&self) -> u64 {
        self.counter.load(std::sync::atomic::Ordering::SeqCst)
    }
}

impl HookHandler for StatsHook {
    /// Counts the event and lets it go on.
    fn handle(&self, event: HookEvent, ctx: &HookContext) -> (r: Result<HookResult, String>)
        ensures
            r matches Ok(h) && h@ == continue_view(),
    {
        self.counter.fetch_add(1, std::sync::atomic::Ordering::SeqCst);
        Ok(HookResult::continue_())
    }

    fn name(&self) -> (r: &'static str)
        ensures
            r@ == "stats-hook"@,
    {
        "stats-hook"
    }
}

/// Triggering an event without handlers lets the operation go on
/// unchanged and records no statistics.
pub proof fn law_no_handlers_continue(outs: Seq<(HookResultView, Seq<char>)>, start: HookStats)
    requires
        is_run_of(outs, 0),
    ensures
        run_result(run_outcomes(outs, start)) == continue_view(),
        !run_outcomes(outs, start).touched,
{
    assert(outs =~= Seq::<(HookResultView, Seq<char>)>::empty());
}

/// The answer of a run does not depend on the statistics it starts from,
/// nor does whether it touches them.
pub proof fn law_answer_independent_of_stats(outs: Seq<(HookResultView, Seq<char>)>, s1: HookStats, s2: HookStats)
    ensures
        run_result(run_outcomes(outs, s1)) == run_result(run_outcomes(outs, s2)),
        run_outcomes(outs, s1).touched == run_outcomes(outs, s2).touched,
    decreases outs.len(),
{
    if outs.len() > 0 {
        law_answer_independent_of_stats(outs.drop_last(), s1, s2);
    }
}

/// A run lets the operation go on exactly when every handler that ran did;
/// handlers run until one stops, so a run that goes on has run them all,
/// and one that stops was stopped by the last handler that ran, with its
/// reason (or, for none, "被 <name> 阻止").
pub proof fn law_proceed_iff_all_proceed(outs: Seq<(HookResultView, Seq<char>)>, n: nat, start: HookStats)
    requires
        is_run_of(outs, n),
    ensures
        run_outcomes(outs, start).proceed <==> forall|k: int| 0 <= k < outs.len() ==> (#[trigger] outs[k]).0.proceed,
        run_outcomes(outs, start).proceed ==> outs.len() == n,
        !run_outcomes(outs, start).proceed ==> outs.len() > 0 && run_outcomes(outs, start).reason == match outs.last().0.reason {
            Some(x) => Some(x),
            None => Some(blocked_reason(outs.last().1)),
        },
{
    lemma_run_proceeds(outs, start);
    if outs.len() > 0 {
        let t = outs.drop_last();
        lemma_run_proceeds(t, start);
        assert forall|k: int| 0 <= k < t.len() implies (#[trigger] t[k]).0.proceed by {
            assert(t[k] == outs[k]);
        }
    }
}

/// A run over outcomes that all go on goes on; it stops exactly where an
/// outcome first stops.
proof fn lemma_run_proceeds(outs: Seq<(HookResultView, Seq<char>)>, start: HookStats)
    ensures
        run_outcomes(outs, start).proceed <==> forall|k: int| 0 <= k < outs.len() ==> (#[trigger] outs[k]).0.proceed,
    decreases outs.len(),
{
    if outs.len() > 0 {
        let t = outs.drop_last();
        lemma_run_proceeds(t, start);
        assert forall|k: int| 0 <= k < t.len() implies (#[trigger] t[k]) == outs[k] by {}
        if !run_outcomes(t, start).proceed {
            let k = choose|k: int| 0 <= k < t.len() && !(#[trigger] t[k]).0.proceed;
            assert(!outs[k].0.proceed);
        } else {
            assert(outs[outs.len() - 1] == outs.last());
            if outs.last().0.proceed {
                assert forall|k: int| 0 <= k < outs.len() implies (#[trigger] outs[k]).0.proceed by {
                    if k < t.len() {
                        assert(t[k] == outs[k]);
                    }
                }
            }
        }
    }
}

/// A run over outcomes that all go on gives no reason.
proof fn lemma_run_no_reason(outs: Seq<(HookResultView, Seq<char>)>, start: HookStats)
    requires
        forall|k: int| 0 <= k < outs.len() ==> (#[trigger] outs[k]).0.proceed,
    ensures
        run_outcomes(outs, start).reason is None,
        run_outcomes(outs, start).proceed,
    decreases outs.len(),
{
    if outs.len() > 0 {
        let t = outs.drop_last();
        assert forall|k: int| 0 <= k < t.len() implies (#[trigger] t[k]).0.proceed by {
            assert(t[k] == outs[k]);
        }
        lemma_run_no_reason(t, start);
        assert(outs[outs.len() - 1] == outs.last());
    }
}

/// When no answer any handler can give to the event stops the operation,
/// a trigger runs every handler and goes on, with no reason.
pub proof fn law_continuing_handlers_proceed<H: HookHandler>(
    outs: Seq<(HookResultView, Seq<char>)>,
    hs: Seq<H>,
    event: HookEvent,
    ctx: &HookContext,
    start: HookStats,
)
    requires
        is_run_of(outs, hs.len()),
        answers_of(outs, hs, event, ctx),
        forall|k: int, a: HookResultView| 0 <= k < hs.len() && #[trigger] can_answer(hs[k], event, ctx, a) ==> a.proceed,
    ensures
        outs.len() == hs.len(),
        run_outcomes(outs, start).proceed,
        run_outcomes(outs, start).reason is None,
{
    assert forall|k: int| 0 <= k < outs.len() implies (#[trigger] outs[k]).0.proceed by {
        assert(can_answer(hs[k], event, ctx, outs[k].0));
    }
    if outs.len() < hs.len() {
        assert(outs.last() == outs[outs.len() - 1]);
    }
    lemma_run_no_reason(outs, start);
}

/// When every handler lets the operation go on unchanged, all of them run,
/// the run goes on unchanged, and each handler is counted once.
pub proof fn law_all_continue(outs: Seq<(HookResultView, Seq<char>)>, n: nat, start: HookStats)
    requires
        is_run_of(outs, n),
        forall|k: int| 0 <= k < outs.len() ==> (#[trigger] outs[k]).0 == continue_view(),
        start.call_count + n <= u64::MAX,
    ensures
        outs.len() == n,
        run_result(run_outcomes(outs, start)) == continue_view(),
        run_outcomes(outs, start).stats.call_count == start.call_count + n,
        run_outcomes(outs, start).stats.error_count == start.error_count,
        run_outcomes(outs, start).touched == (n > 0),
{
    if outs.len() < n {
        assert(outs.last() == outs[outs.len() - 1]);
    }
    lemma_all_continue(outs, start);
}

proof fn lemma_all_continue(outs: Seq<(HookResultView, Seq<char>)>, start: HookStats)
    requires
        forall|k: int| 0 <= k < outs.len() ==> (#[trigger] outs[k]).0 == continue_view(),
        start.call_count + outs.len() <= u64::MAX,
    ensures
        run_result(run_outcomes(outs, start)) == continue_view(),
        run_outcomes(outs, start).stats.call_count == start.call_count + outs.len(),
        run_outcomes(outs, start).stats.error_count == start.error_count,
        run_outcomes(outs, start).touched == (outs.len() > 0),
    decreases outs.len(),
{
    if outs.len() > 0 {
        let t = outs.drop_last();
        assert forall|k: int| 0 <= k < t.len() implies (#[trigger] t[k]).0 == continue_view() by {
            assert(t[k] == outs[k]);
        }
        lemma_all_continue(t, start);
        assert(outs[outs.len() - 1] == outs.last());
    }
}

/// Each of the handlers `hs` has at most one answer to `event` with `ctx`
/// and at most one name.
pub open spec fn answers_fixed<H: HookHandler>(hs: Seq<H>, event: HookEvent, ctx: &HookContext) -> bool {
    &&& forall|k: int, a1: HookResultView, a2: HookResultView|
        0 <= k < hs.len() && #[trigger] can_answer(hs[k], event, ctx, a1) && #[trigger] can_answer(hs[k], event, ctx, a2) ==> a1 == a2
    &&& forall|k: int, n1: Seq<char>, n2: Seq<char>|
        0 <= k < hs.len() && #[trigger] can_name(hs[k], n1) && #[trigger] can_name(hs[k], n2) ==> n1 == n2
}

/// Runs over outcomes with the same answers, and the same names where they
/// stop, end in the same state.
proof fn lemma_same_answers_same_run(o1: Seq<(HookResultView, Seq<char>)>, o2: Seq<(HookResultView, Seq<char>)>, start: HookStats)
    requires
        o1.len() == o2.len(),
        forall|k: int| 0 <= k < o1.len() ==> (#[trigger] o1[k]).0 == o2[k].0,
        forall|k: int| 0 <= k < o1.len() && !(#[trigger] o1[k]).0.proceed ==> o1[k].1 == o2[k].1,
    ensures
        run_outcomes(o1, start) == run_outcomes(o2, start),
    decreases o1.len(),
{
    if o1.len() > 0 {
        let (t1, t2) = (o1.drop_last(), o2.drop_last());
        assert forall|k: int| 0 <= k < t1.len() implies (#[trigger] t1[k]).0 == t2[k].0 && (!t1[k].0.proceed ==> t1[k].1 == t2[k].1) by {
            assert(t1[k] == o1[k] && t2[k] == o2[k]);
        }
        lemma_same_answers_same_run(t1, t2, start);
        assert(o1.last() == o1[o1.len() - 1] && o2.last() == o2[o2.len() - 1]);
    }
}

/// `trigger_async` answers as `trigger` does: when each handler of the event
/// gives one answer to `(event, ctx)` and one name, any two runs of the
/// handlers, such as the one `trigger` makes from the recorded statistics
/// and the one `trigger_async` makes from none, run the same handlers and
/// give the same answer.
pub proof fn law_trigger_async_answers_as_trigger<H: HookHandler>(
    o1: Seq<(HookResultView, Seq<char>)>,
    o2: Seq<(HookResultView, Seq<char>)>,
    hs: Seq<H>,
    event: HookEvent,
    ctx: &HookContext,
    s1: HookStats,
    s2: HookStats,
)
    requires
        is_run_of(o1, hs.len()),
        is_run_of(o2, hs.len()),
        answers_of(o1, hs, event, ctx),
        answers_of(o2, hs, event, ctx),
        answers_fixed(hs, event, ctx),
    ensures
        o1.len() == o2.len(),
        run_result(run_outcomes(o1, s1)) == run_result(run_outcomes(o2, s2)),
{
    let m = if o1.len() < o2.len() { o1.len() } else { o2.len() };
    assert forall|k: int| 0 <= k < m implies (#[trigger] o1[k]).0 == o2[k].0 by {
        assert(can_answer(hs[k], event, ctx, o1[k].0));
        assert(can_answer(hs[k], event, ctx, o2[k].0));
    }
    if o1.len() < o2.len() {
        assert(o1.last() == o1[o1.len() - 1]);
        assert(o2[o1.len() - 1].0.proceed);
    }
    if o2.len() < o1.len() {
        assert(o2.last() == o2[o2.len() - 1]);
        assert(o1[o2.len() - 1].0.proceed);
    }
    assert forall|k: int| 0 <= k < o1.len() && !(#[trigger] o1[k]).0.proceed implies o1[k].1 == o2[k].1 by {
        assert(can_name(hs[k], o1[k].1));
        assert(can_name(hs[k], o2[k].1));
    }
    lemma_same_answers_same_run(o1, o2, s1);
    law_answer_independent_of_stats(o2, s1, s2);
}

/// Handler `j` of the run set `key` in its data changes.
pub open spec fn sets_key(outs: Seq<(HookResultView, Seq<char>)>, j: int, key: Seq<char>) -> bool {
    outs[j].0.modified_data matches Some(m) && m.dom().contains(key)
}

/// The merged changes after a run whose handlers all went on, but perhaps
/// the last: each key that a handler which ran set holds the value that the
/// last handler to set it gave it.
proof fn lemma_merge_last_writer(outs: Seq<(HookResultView, Seq<char>)>, start: HookStats, j: int, key: Seq<char>)
    requires
        forall|k: int| 0 <= k < outs.len() - 1 ==> (#[trigger] outs[k]).0.proceed,
        0 <= j < outs.len(),
        sets_key(outs, j, key),
        forall|k: int| j < k < outs.len() ==> !sets_key(outs, k, key),
    ensures
        run_outcomes(outs, start).merged matches Some(mm) && mm.dom().contains(key)
            && mm[key] == outs[j].0.modified_data->0[key],
    decreases outs.len(),
{
    let t = outs.drop_last();
    assert forall|k: int| 0 <= k < t.len() implies (#[trigger] t[k]).0.proceed by {
        assert(t[k] == outs[k]);
    }
    lemma_run_proceeds(t, start);
    assert(outs.last() == outs[outs.len() - 1]);
    if j < outs.len() - 1 {
        assert forall|k: int| 0 <= k < t.len() - 1 implies (#[trigger] t[k]).0.proceed by {
            assert(t[k] == outs[k]);
        }
        assert(t[j] == outs[j]);
        assert forall|k: int| j < k < t.len() implies !sets_key(t, k, key) by {
            assert(t[k] == outs[k]);
            assert(!sets_key(outs, k, key));
        }
        lemma_merge_last_writer(t, start, j, key);
        assert(!sets_key(outs, outs.len() - 1, key));
    }
}

/// The merged changes after a run hold no key that no handler which ran set.
proof fn lemma_merge_unset(outs: Seq<(HookResultView, Seq<char>)>, start: HookStats, key: Seq<char>)
    requires
        forall|k: int| 0 <= k < outs.len() ==> !sets_key(outs, k, key),
    ensures
        run_outcomes(outs, start).merged matches Some(mm) ==> !mm.dom().contains(key),
    decreases outs.len(),
{
    if outs.len() > 0 {
        let t = outs.drop_last();
        assert forall|k: int| 0 <= k < t.len() implies !sets_key(t, k, key) by {
            assert(t[k] == outs[k]);
            assert(!sets_key(outs, k, key));
        }
        lemma_merge_unset(t, start, key);
        assert(outs.last() == outs[outs.len() - 1]);
        assert(!sets_key(outs, outs.len() - 1, key));
    }
}

/// Law: the data changes of a trigger are merged so that later handlers
/// override earlier ones. After a run, each key that some handler which
/// ran set (the stopping one included) holds the value that the last of
/// them to set it gave, and no other key is present.
pub proof fn law_later_changes_override(outs: Seq<(HookResultView, Seq<char>)>, n: nat, start: HookStats, key: Seq<char>)
    requires
        is_run_of(outs, n),
    ensures
        forall|j: int| 0 <= j < outs.len() && sets_key(outs, j, key)
            && (forall|k: int| j < k < outs.len() ==> !sets_key(outs, k, key))
            ==> (run_outcomes(outs, start).merged matches Some(mm) && mm.dom().contains(key)
                && mm[key] == outs[j].0.modified_data->0[key]),
        (forall|k: int| 0 <= k < outs.len() ==> !sets_key(outs, k, key))
            ==> !(run_outcomes(outs, start).merged matches Some(mm) && mm.dom().contains(key)),
{
    assert forall|j: int| 0 <= j < outs.len() && sets_key(outs, j, key)
        && (forall|k: int| j < k < outs.len() ==> !sets_key(outs, k, key))
        implies (run_outcomes(outs, start).merged matches Some(mm) && mm.dom().contains(key)
            && mm[key] == outs[j].0.modified_data->0[key]) by {
        lemma_merge_last_writer(outs, start, j, key);
    }
    if forall|k: int| 0 <= k < outs.len() ==> !sets_key(outs, k, key) {
        lemma_merge_unset(outs, start, key);
    }
}

/// Law: a run counts, in the statistics of the event, each handler that
/// ran and let the operation go on, and among them each that reported an
/// error; a handler that stopped the run is not counted. The statistics are
/// touched exactly when some handler was counted, and the time total is
/// kept.
pub proof fn law_run_counts(outs: Seq<(HookResultView, Seq<char>)>, n: nat, start: HookStats)
    requires
        is_run_of(outs, n),
        start.call_count + outs.len() <= u64::MAX,
        start.error_count + outs.len() <= u64::MAX,
    ensures
        run_outcomes(outs, start).stats.call_count == start.call_count
            + outs.filter(|o: (HookResultView, Seq<char>)| o.0.proceed).len(),
        run_outcomes(outs, start).stats.error_count == start.error_count
            + outs.filter(|o: (HookResultView, Seq<char>)| o.0.proceed && o.0.error is Some).len(),
        run_outcomes(outs, start).touched == (outs.filter(|o: (HookResultView, Seq<char>)| o.0.proceed).len() > 0),
        run_outcomes(outs, start).stats.total_duration_ms == start.total_duration_ms,
{
    lemma_run_counts(outs, start);
}

proof fn lemma_run_counts(outs: Seq<(HookResultView, Seq<char>)>, start: HookStats)
    requires
        forall|k: int| 0 <= k < outs.len() - 1 ==> (#[trigger] outs[k]).0.proceed,
        start.call_count + outs.len() <= u64::MAX,
        start.error_count + outs.len() <= u64::MAX,
    ensures
        run_outcomes(outs, start).stats.call_count == start.call_count
            + outs.filter(|o: (HookResultView, Seq<char>)| o.0.proceed).len(),
        run_outcomes(outs, start).stats.error_count == start.error_count
            + outs.filter(|o: (HookResultView, Seq<char>)| o.0.proceed && o.0.error is Some).len(),
        run_outcomes(outs, start).touched == (outs.filter(|o: (HookResultView, Seq<char>)| o.0.proceed).len() > 0),
        run_outcomes(outs, start).stats.total_duration_ms == start.total_duration_ms,
    decreases outs.len(),
{
    reveal(Seq::filter);
    let f = |o: (HookResultView, Seq<char>)| o.0.proceed;
    let g = |o: (HookResultView, Seq<char>)| o.0.proceed && o.0.error is Some;
    if outs.len() > 0 {
        let t = outs.drop_last();
        assert forall|k: int| 0 <= k < t.len() - 1 implies (#[trigger] t[k]).0.proceed by {
            assert(t[k] == outs[k]);
        }
        lemma_run_counts(t, start);
        assert forall|k: int| 0 <= k < t.len() implies (#[trigger] t[k]).0.proceed by {
            assert(t[k] == outs[k]);
        }
        lemma_run_proceeds(t, start);
        t.lemma_filter_len(f);
        t.lemma_filter_len(g);
        assert(t.filter(f).len() == t.len()) by {
            lemma_all_kept(t, f);
        }
    }
}

/// Keeping the items that all meet `f` keeps them all.
proof fn lemma_all_kept(s: Seq<(HookResultView, Seq<char>)>, f: spec_fn((HookResultView, Seq<char>)) -> bool)
    requires
        forall|k: int| 0 <= k < s.len() ==> f(#[trigger] s[k]),
    ensures
        s.filter(f).len() == s.len(),
    decreases s.len(),
{
    reveal(Seq::filter);
    if s.len() > 0 {
        let t = s.drop_last();
        assert forall|k: int| 0 <= k < t.len() implies f(#[trigger] t[k]) by {
            assert(t[k] == s[k]);
        }
        lemma_all_kept(t, f);
        assert(s.last() == s[s.len() - 1]);
    }
}

} // verus!
