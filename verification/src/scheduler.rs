//! The scheduler: the decision core of the top-level control loop. It owns
//! the current provider index and the running flag, and maps each incoming
//! event (command, notification, content frame, auto-advance tick) to the
//! exact sink actions the loop must perform, at most one event per iteration.
//!
//! The surrounding I/O loop — the select over the command channel, the merged
//! notification stream, the multiplexer and the timer — performs the actions
//! and feeds the next event back in.

use vstd::prelude::*;

use crate::framebuffer::FrameBuffer;

verus! {

/// Milliseconds per scheduler tick.
pub const TICK_LENGTH: usize = 50;
/// Scheduler ticks per second.
pub const TICKS_PER_SECOND: usize = 1000 / TICK_LENGTH;

/// Default priority for providers that configure none: the lowest.
pub const DEFAULT_PRIORITY: i64 = 99;
/// Default auto-advance threshold in seconds.
pub const DEFAULT_REFRESH_SECS: i64 = 30;

/// An external command for the scheduler.
#[derive(Clone, Copy, Debug, PartialEq, Eq, Structural)]
pub enum Command {
    PreviousSource,
    NextSource,
    Shutdown,
}

/// A transient failure of a single frame-production attempt. Such frames are
/// dropped; the previous image simply stays on screen.
#[derive(Clone, Debug)]
pub struct ProviderError {
    pub message: String,
}

/// One of the four event sources the control loop races each iteration.
pub enum Event {
    /// A command arrived; `now_ms` is the arrival time, recorded as the last
    /// manual switch for the auto-advance timer.
    Command { cmd: Command, now_ms: u64 },
    /// A notification arrived; its full tick sequence of frames is drained
    /// atomically, before any other event is looked at.
    Notification { frames: Vec<FrameBuffer> },
    /// The multiplexer yielded: a frame, a dropped provider error, or the end
    /// of the merged content stream.
    Content { item: Option<Result<FrameBuffer, ProviderError>> },
    /// The auto-advance timer ticked at `now_ms`.
    AutoTick { now_ms: u64 },
}

/// What the loop must do against the sink (or the command channel) after a
/// step, in order.
pub enum Action {
    /// Clear the whole screen.
    Clear,
    /// Draw one frame.
    Draw(FrameBuffer),
    /// Tear the sink down; only ever emitted once, on shutdown.
    ShutdownSink,
    /// Feed a synthesized command back into the command channel.
    Emit(Command),
}

/// The next index, wrapping forward past the end of the rotation.
pub open spec fn spec_next_index(current: int, count: int) -> int {
    (current + 1) % count
}

/// The previous index, wrapping backward from zero to the end.
pub open spec fn spec_previous_index(current: int, count: int) -> int {
    if current == 0 {
        count - 1
    } else {
        current - 1
    }
}

/// Advances the rotation index forward, wrapping modulo `count`.
pub fn next_index(current: usize, count: usize) -> (r: usize)
    requires
        count > 0,
        current < count,
    ensures
        r == spec_next_index(current as int, count as int),
        r < count,
{
    (current + 1) % count
}

/// Steps the rotation index backward, wrapping from zero to `count - 1`.
pub fn previous_index(current: usize, count: usize) -> (r: usize)
    requires
        count > 0,
        current < count,
    ensures
        r == spec_previous_index(current as int, count as int),
        r < count,
{
    if current == 0 {
        count - 1
    } else {
        current - 1
    }
}

/// Law: one backward step from index 0 lands on `count - 1`, and one forward
/// step from `count - 1` lands on 0.
pub proof fn lemma_index_wrap(count: int)
    requires
        count > 0,
    ensures
        spec_previous_index(0, count) == count - 1,
        spec_next_index(count - 1, count) == 0,
{
    assert(count % count == 0) by (nonlinear_arith)
        requires count > 0;
}

/// Law: with three providers, three forward steps return the index to its
/// starting value.
pub proof fn lemma_three_steps_cycle(current: int)
    requires
        0 <= current < 3,
    ensures
        spec_next_index(spec_next_index(spec_next_index(current, 3), 3), 3) == current,
{
    if current == 0 {
        assert(spec_next_index(spec_next_index(spec_next_index(0, 3), 3), 3) == 0);
    } else if current == 1 {
        assert(spec_next_index(spec_next_index(spec_next_index(1, 3), 3), 3) == 1);
    } else {
        assert(spec_next_index(spec_next_index(spec_next_index(2, 3), 3), 3) == 2);
    }
}

/// Whether the auto-advance timer is enabled, from the `interval.refresh`
/// configuration value: enabled unless the key is present and zero.
pub fn auto_advance_enabled(interval_refresh: Option<i64>) -> (r: bool)
    ensures
        r == match interval_refresh {
            Some(v) => v != 0,
            None => true,
        },
{
    match interval_refresh {
        Some(v) => v != 0,
        None => true,
    }
}

/// The configured auto-advance threshold in milliseconds, from the
/// `refresh.interval` configuration value in seconds (default 30). A negative
/// value is reinterpreted as the unsigned seconds count it maps to; the
/// conversion to milliseconds saturates.
pub fn refresh_threshold_ms(refresh_interval: Option<i64>) -> (r: u64)
    ensures
        r == spec_threshold_ms(refresh_interval),
{
    let secs: i64 = match refresh_interval {
        Some(v) => v,
        None => DEFAULT_REFRESH_SECS,
    };
    let secs_u: u64 = secs as u64;
    if secs_u <= u64::MAX / 1000 {
        proof {
            assert(secs_u * 1000 <= u64::MAX) by (nonlinear_arith)
                requires secs_u <= u64::MAX / 1000;
        }
        secs_u * 1000
    } else {
        u64::MAX
    }
}

/// The threshold in milliseconds that [`refresh_threshold_ms`] computes.
pub open spec fn spec_threshold_ms(refresh_interval: Option<i64>) -> u64 {
    let secs = (match refresh_interval {
        Some(v) => v,
        None => DEFAULT_REFRESH_SECS,
    }) as u64;
    if secs * 1000 <= u64::MAX {
        (secs * 1000) as u64
    } else {
        u64::MAX
    }
}

/// One provider registration, as the startup code sees it: the stable name,
/// whether the factory produced an instance, and the `<name>.enabled` /
/// `<name>.priority` configuration lookups (absent keys use the defaults).
pub struct ProviderEntry {
    pub name: String,
    pub factory_ok: bool,
    pub enabled: Option<bool>,
    pub priority: Option<i64>,
}

impl ProviderEntry {
    /// Enabled unless configured off: `<name>.enabled` defaults to true.
    pub open spec fn spec_enabled(self) -> bool {
        match self.enabled {
            Some(b) => b,
            None => true,
        }
    }

    /// `<name>.priority`, defaulting to the lowest priority.
    pub open spec fn spec_priority(self) -> int {
        match self.priority {
            Some(p) => p as int,
            None => DEFAULT_PRIORITY as int,
        }
    }

    /// In the rotation: the factory worked and the provider is enabled.
    /// A failed factory is logged and excluded; the others still run.
    pub open spec fn spec_active(self) -> bool {
        self.factory_ok && self.spec_enabled()
    }
}

/// The rotation order between entry indices `i` and `j` of `entries`:
/// strictly smaller priority first, registration order among equal
/// priorities (the sort is stable).
pub open spec fn rotation_before(entries: Seq<ProviderEntry>, i: int, j: int) -> bool {
    ||| entries[i].spec_priority() < entries[j].spec_priority()
    ||| (entries[i].spec_priority() == entries[j].spec_priority() && i < j)
}

/// Plans the provider rotation: the indices of the active entries (factory
/// succeeded, not disabled), ordered by priority, stable among equals. The
/// three clauses pin the result down completely: every listed index is
/// active, every active index is listed, and the list is strictly ordered by
/// (priority, registration index).
pub fn plan_rotation(entries: &Vec<ProviderEntry>) -> (r: Vec<usize>)
    ensures
        forall|k: int| 0 <= k < r@.len()
            ==> (#[trigger] r@[k]) < entries@.len() && entries@[r@[k] as int].spec_active(),
        forall|i: int| 0 <= i < entries@.len() && entries@[i].spec_active()
            ==> r@.contains(i as usize),
        forall|k1: int, k2: int| 0 <= k1 < k2 < r@.len()
            ==> rotation_before(entries@, r@[k1] as int, r@[k2] as int),
{
    let n = entries.len();
    let mut r: Vec<usize> = Vec::new();
    let mut i: usize = 0;
    while i < n
        invariant
            i <= n,
            n == entries@.len(),
            forall|k: int| 0 <= k < r@.len()
                ==> (#[trigger] r@[k]) < i && entries@[r@[k] as int].spec_active(),
            forall|j: int| 0 <= j < i && entries@[j].spec_active() ==> r@.contains(j as usize),
            forall|k1: int, k2: int| 0 <= k1 < k2 < r@.len()
                ==> rotation_before(entries@, r@[k1] as int, r@[k2] as int),
        decreases n - i,
    {
        let e = &entries[i];
        let enabled = match e.enabled {
            Some(b) => b,
            None => true,
        };
        if e.factory_ok && enabled {
            let prio: i64 = match e.priority {
                Some(p) => p,
                None => DEFAULT_PRIORITY,
            };
            // Find the first slot whose priority is strictly larger; equal
            // priorities keep registration order, so `i` goes after them.
            let mut pos: usize = 0;
            while pos < r.len()
                invariant
                    pos <= r@.len(),
                    n == entries@.len(),
                    prio == entries@[i as int].spec_priority(),
                    i < n,
                    forall|k: int| 0 <= k < r@.len()
                        ==> (#[trigger] r@[k]) < i && entries@[r@[k] as int].spec_active(),
                    forall|k: int| 0 <= k < pos
                        ==> entries@[(#[trigger] r@[k]) as int].spec_priority() <= prio,
                ensures
                    pos <= r@.len(),
                    forall|k: int| 0 <= k < pos
                        ==> entries@[(#[trigger] r@[k]) as int].spec_priority() <= prio,
                    pos < r@.len() ==> entries@[r@[pos as int] as int].spec_priority() > prio,
                decreases r@.len() - pos,
            {
                let idx = r[pos];
                let other: i64 = match entries[idx].priority {
                    Some(p) => p,
                    None => DEFAULT_PRIORITY,
                };
                if other > prio {
                    break;
                }
                pos += 1;
            }
            proof {
                assert forall|k: int| pos <= k < r@.len()
                    implies entries@[(#[trigger] r@[k]) as int].spec_priority() > prio by {
                    if k > pos {
                        assert(rotation_before(entries@, r@[pos as int] as int, r@[k] as int));
                    }
                }
            }
            let ghost old_r = r@;
            r.insert(pos, i);
            proof {
                assert(r@ =~= old_r.insert(pos as int, i));
                assert forall|k1: int, k2: int| 0 <= k1 < k2 < r@.len()
                    implies rotation_before(entries@, r@[k1] as int, r@[k2] as int) by {
                    let p = pos as int;
                    if k1 < p && k2 < p {
                        assert(r@[k1] == old_r[k1] && r@[k2] == old_r[k2]);
                    } else if k1 < p && k2 == p {
                        assert(r@[k1] == old_r[k1] && r@[k2] == i);
                        assert(entries@[old_r[k1] as int].spec_priority() <= prio);
                        assert(old_r[k1] < i);
                    } else if k1 < p && k2 > p {
                        assert(r@[k1] == old_r[k1] && r@[k2] == old_r[k2 - 1]);
                    } else if k1 == p && k2 > p {
                        assert(r@[k1] == i && r@[k2] == old_r[k2 - 1]);
                        assert(entries@[old_r[k2 - 1] as int].spec_priority() > prio);
                    } else {
                        assert(r@[k1] == old_r[k1 - 1] && r@[k2] == old_r[k2 - 1]);
                    }
                }
                assert forall|j: int| 0 <= j < i + 1 && entries@[j].spec_active()
                    implies r@.contains(j as usize) by {
                    if j == i {
                        assert(r@[pos as int] == i as usize);
                    } else {
                        assert(old_r.contains(j as usize));
                        let k = choose|k: int| 0 <= k < old_r.len() && old_r[k] == j as usize;
                        if k < pos as int {
                            assert(r@[k] == j as usize);
                        } else {
                            assert(r@[k + 1] == j as usize);
                        }
                    }
                }
            }
        }
        i += 1;
    }
    r
}

/// The scheduler's control state: the provider rotation bounds, the shared
/// current index, the running flag, and the auto-advance bookkeeping.
pub struct SchedulerCore {
    count: usize,
    current: usize,
    running: bool,
    last_switch_ms: u64,
    auto_enabled: bool,
    threshold_ms: u64,
}

impl SchedulerCore {
    /// The number of providers in the rotation.
    pub closed spec fn spec_count(self) -> usize {
        self.count
    }

    /// The currently selected provider index.
    pub closed spec fn spec_current(self) -> usize {
        self.current
    }

    /// False once a shutdown command was handled.
    pub closed spec fn spec_running(self) -> bool {
        self.running
    }

    /// The time of the last manual (or synthesized) source switch.
    pub closed spec fn spec_last_switch_ms(self) -> u64 {
        self.last_switch_ms
    }

    /// Whether the auto-advance timer synthesizes `NextSource` commands.
    pub closed spec fn spec_auto_enabled(self) -> bool {
        self.auto_enabled
    }

    /// Elapsed time after which auto-advance fires, in milliseconds.
    pub closed spec fn spec_threshold(self) -> u64 {
        self.threshold_ms
    }

    /// The index invariant: the rotation is non-empty and the current index
    /// stays inside it after any mutation.
    pub open spec fn wf(self) -> bool {
        &&& self.spec_count() > 0
        &&& self.spec_current() < self.spec_count()
    }

    /// A scheduler in its initial state: first provider selected, running.
    pub fn new(count: usize, now_ms: u64, auto_enabled: bool, threshold_ms: u64) -> (r: Self)
        requires
            count > 0,
        ensures
            r.wf(),
            r.spec_count() == count,
            r.spec_current() == 0,
            r.spec_running(),
            r.spec_last_switch_ms() == now_ms,
            r.spec_auto_enabled() == auto_enabled,
            r.spec_threshold() == threshold_ms,
    {
        SchedulerCore {
            count,
            current: 0,
            running: true,
            last_switch_ms: now_ms,
            auto_enabled,
            threshold_ms,
        }
    }

    pub fn current_index(&self) -> (r: usize)
        ensures
            r == self.spec_current(),
    {
        self.current
    }

    pub fn is_running(&self) -> (r: bool)
        ensures
            r == self.spec_running(),
    {
        self.running
    }

    pub fn provider_count(&self) -> (r: usize)
        ensures
            r == self.spec_count(),
    {
        self.count
    }

    /// Handles exactly one event and returns the sink actions it demands.
    pub fn step(&mut self, event: Event) -> (actions: Vec<Action>)
        requires
            old(self).wf(),
            old(self).spec_running(),
        ensures
            final(self).wf(),
            step_rel(*old(self), event, *final(self), actions@),
    {
        match event {
            Event::Command { cmd, now_ms } => {
                self.last_switch_ms = now_ms;
                match cmd {
                    Command::Shutdown => {
                        self.running = false;
                        let mut actions: Vec<Action> = Vec::new();
                        actions.push(Action::Clear);
                        actions.push(Action::ShutdownSink);
                        actions
                    },
                    Command::NextSource => {
                        self.current = next_index(self.current, self.count);
                        let mut actions: Vec<Action> = Vec::new();
                        actions.push(Action::Clear);
                        actions
                    },
                    Command::PreviousSource => {
                        self.current = previous_index(self.current, self.count);
                        let mut actions: Vec<Action> = Vec::new();
                        actions.push(Action::Clear);
                        actions
                    },
                }
            },
            Event::Notification { frames } => {
                let mut frames = frames;
                let ghost all = frames@;
                let mut actions: Vec<Action> = Vec::new();
                while frames.len() > 0
                    invariant
                        actions@.len() + frames@.len() == all.len(),
                        frames@ =~= all.skip(actions@.len() as int),
                        forall|i: int| 0 <= i < actions@.len()
                            ==> actions@[i] == Action::Draw(all[i]),
                    decreases frames@.len(),
                {
                    let f = frames.remove(0);
                    proof {
                        assert(all[actions@.len() as int] == f);
                    }
                    actions.push(Action::Draw(f));
                    proof {
                        assert(frames@ =~= all.skip(actions@.len() as int));
                    }
                }
                actions
            },
            Event::Content { item } => {
                match item {
                    Some(Ok(frame)) => {
                        let mut actions: Vec<Action> = Vec::new();
                        actions.push(Action::Draw(frame));
                        actions
                    },
                    _ => Vec::new(),
                }
            },
            Event::AutoTick { now_ms } => {
                let elapsed: u64 = if now_ms >= self.last_switch_ms {
                    now_ms - self.last_switch_ms
                } else {
                    0
                };
                if self.auto_enabled && elapsed > self.threshold_ms {
                    let mut actions: Vec<Action> = Vec::new();
                    actions.push(Action::Emit(Command::NextSource));
                    actions
                } else {
                    Vec::new()
                }
            },
        }
    }
}

/// How one step relates the scheduler state before and after an event to the
/// actions it demands. This is the whole control-loop policy:
/// - `NextSource` / `PreviousSource` move the index with wrap-around, record
///   the switch time, and clear the screen so no stale pixels bleed over;
/// - `Shutdown` stops the loop with exactly one final clear, then teardown;
/// - a notification is drained atomically: one draw per frame, in order,
///   nothing else interleaved, and the selection is untouched;
/// - a content frame is drawn; a provider error or stream end draws nothing;
/// - an auto-advance tick past the threshold synthesizes one `NextSource`.
pub open spec fn step_rel(
    pre: SchedulerCore,
    event: Event,
    post: SchedulerCore,
    actions: Seq<Action>,
) -> bool {
    &&& post.spec_count() == pre.spec_count()
    &&& post.spec_auto_enabled() == pre.spec_auto_enabled()
    &&& post.spec_threshold() == pre.spec_threshold()
    &&& match event {
        Event::Command { cmd, now_ms } => {
            &&& post.spec_last_switch_ms() == now_ms
            &&& match cmd {
                Command::Shutdown => {
                    &&& !post.spec_running()
                    &&& post.spec_current() == pre.spec_current()
                    &&& actions =~= seq![Action::Clear, Action::ShutdownSink]
                },
                Command::NextSource => {
                    &&& post.spec_running()
                    &&& post.spec_current() == spec_next_index(
                        pre.spec_current() as int,
                        pre.spec_count() as int,
                    )
                    &&& actions =~= seq![Action::Clear]
                },
                Command::PreviousSource => {
                    &&& post.spec_running()
                    &&& post.spec_current() == spec_previous_index(
                        pre.spec_current() as int,
                        pre.spec_count() as int,
                    )
                    &&& actions =~= seq![Action::Clear]
                },
            }
        },
        Event::Notification { frames } => {
            &&& post == pre
            &&& actions.len() == frames@.len()
            &&& forall|i: int| 0 <= i < actions.len() ==> actions[i] == Action::Draw(frames@[i])
        },
        Event::Content { item } => {
            &&& post == pre
            &&& match item {
                Some(Ok(frame)) => actions =~= seq![Action::Draw(frame)],
                _ => actions.len() == 0,
            }
        },
        Event::AutoTick { now_ms } => {
            &&& post == pre
            &&& if pre.spec_auto_enabled() && elapsed_since(now_ms, pre.spec_last_switch_ms())
                > pre.spec_threshold() {
                actions =~= seq![Action::Emit(Command::NextSource)]
            } else {
                actions.len() == 0
            }
        },
    }
}

/// Elapsed milliseconds, clamped at zero for a clock that went backwards.
pub open spec fn elapsed_since(now_ms: u64, last_ms: u64) -> u64 {
    if now_ms >= last_ms {
        (now_ms - last_ms) as u64
    } else {
        0
    }
}

/// Law: a notification drain writes exactly the notification's frames, in
/// order, with no other action interleaved, and leaves the whole scheduler
/// state — the selection in particular — unchanged, so normal multiplexing
/// resumes exactly where it left off.
pub proof fn lemma_notification_atomic(
    pre: SchedulerCore,
    frames: Vec<FrameBuffer>,
    post: SchedulerCore,
    actions: Seq<Action>,
)
    requires
        step_rel(pre, Event::Notification { frames }, post, actions),
    ensures
        post == pre,
        actions.len() == frames@.len(),
        forall|i: int| 0 <= i < actions.len() ==> actions[i] == Action::Draw(frames@[i]),
        forall|i: int| 0 <= i < actions.len() ==> actions[i] is Draw,
{
    assert forall|i: int| 0 <= i < actions.len() implies actions[i] is Draw by {
        assert(actions[i] == Action::Draw(frames@[i]));
    }
}

/// Law: handling `Shutdown` stops the loop and demands exactly one final
/// clear followed by the sink teardown — in particular, no draw.
pub proof fn lemma_shutdown_final(
    pre: SchedulerCore,
    now_ms: u64,
    post: SchedulerCore,
    actions: Seq<Action>,
)
    requires
        step_rel(pre, Event::Command { cmd: Command::Shutdown, now_ms }, post, actions),
    ensures
        !post.spec_running(),
        actions =~= seq![Action::Clear, Action::ShutdownSink],
        forall|i: int| 0 <= i < actions.len() ==> !(actions[i] is Draw),
{
    assert forall|i: int| 0 <= i < actions.len() implies !(actions[i] is Draw) by {
        assert(actions =~= seq![Action::Clear, Action::ShutdownSink]);
        if i == 0 {
            assert(actions[i] == Action::Clear);
        } else {
            assert(actions[i] == Action::ShutdownSink);
        }
    }
}

} // verus!
