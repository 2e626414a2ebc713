use vstd::prelude::*;

verus! {

/// Milliseconds in one UTC calendar day.
pub const MS_PER_DAY: u64 = 86_400_000;

/// Least spacing between two starts of the ingestion task.
pub const RESTART_DEBOUNCE_MS: u64 = 3_000;

/// Nominal period of the supervisor's control loop.
pub const TICK_PERIOD_MS: u64 = 2_000;

/// How long a stop waits for the ingestion task to exit before giving up.
pub const STOP_TIMEOUT_MS: u64 = 10_000;

/// The daily maintenance window, in milliseconds since UTC midnight:
/// `[start_ms, end_ms)`, with the export task before `clean_ms` and the
/// store cleanup from `clean_ms` on.
#[derive(Clone, Copy, Debug, PartialEq, Eq, Structural)]
pub struct MaintenanceWindow {
    pub start_ms: u64,
    pub clean_ms: u64,
    pub end_ms: u64,
}

impl MaintenanceWindow {
    pub open spec fn valid(start_ms: u64, clean_ms: u64, end_ms: u64) -> bool {
        start_ms < clean_ms && clean_ms < end_ms && end_ms <= MS_PER_DAY
    }

    pub open spec fn wf(&self) -> bool {
        Self::valid(self.start_ms, self.clean_ms, self.end_ms)
    }

    /// A window, when `clean_ms` lies strictly inside `[start_ms, end_ms)`
    /// and the window ends no later than midnight.
    pub fn new(start_ms: u64, clean_ms: u64, end_ms: u64) -> (r: Option<Self>)
        ensures
            r is Some <==> Self::valid(start_ms, clean_ms, end_ms),
            r is Some ==> r->0 == (MaintenanceWindow { start_ms, clean_ms, end_ms }),
    {
        if start_ms < clean_ms && clean_ms < end_ms && end_ms <= MS_PER_DAY {
            Some(MaintenanceWindow { start_ms, clean_ms, end_ms })
        } else {
            None
        }
    }

    /// 05:00 to 05:05 UTC, cleanup from 05:03.
    pub fn default_window() -> (r: Self)
        ensures
            r.wf(),
            r.start_ms == 5 * 3_600_000,
            r.clean_ms == 5 * 3_600_000 + 3 * 60_000,
            r.end_ms == 5 * 3_600_000 + 5 * 60_000,
    {
        MaintenanceWindow {
            start_ms: 5 * 3_600_000,
            clean_ms: 5 * 3_600_000 + 3 * 60_000,
            end_ms: 5 * 3_600_000 + 5 * 60_000,
        }
    }

    /// Whether the UTC instant `utc_ms` falls inside the window.
    pub open spec fn contains(&self, utc_ms: u64) -> bool {
        self.start_ms <= time_of_day(utc_ms) < self.end_ms
    }
}

/// The UTC calendar day (days since the epoch) of an instant in milliseconds.
pub open spec fn day_of(utc_ms: u64) -> u64 {
    utc_ms / MS_PER_DAY
}

/// Milliseconds since UTC midnight of an instant.
pub open spec fn time_of_day(utc_ms: u64) -> u64 {
    utc_ms % MS_PER_DAY
}

/// What the control loop observes at one tick.
#[derive(Clone, Copy, Debug, PartialEq, Eq, Structural)]
pub struct TickInput {
    /// Wall-clock time, milliseconds since the Unix epoch (UTC).
    pub utc_ms: u64,
    /// Monotonic clock, milliseconds since an arbitrary origin.
    pub monotonic_ms: u64,
    /// Whether the ingestion task has already exited by itself.
    pub task_finished: bool,
}

/// The actions chosen at one tick; they are carried out in the order stop,
/// push, clean, start.
#[derive(Clone, Copy, Debug, PartialEq, Eq, Structural)]
pub struct TickPlan {
    pub stop_ingestion: bool,
    pub push: bool,
    pub clean: bool,
    pub start_ingestion: bool,
}

/// State of the supervisor's control loop.
#[derive(Clone, Copy, Debug, PartialEq, Eq, Structural)]
pub struct Supervisor {
    pub window: MaintenanceWindow,
    /// The running flag is set and a task handle is held.
    pub ingestion_started: bool,
    /// Monotonic time of the last start.
    pub last_start_ms: Option<u64>,
    /// UTC day on which the export task last ran.
    pub last_pushed_day: Option<u64>,
    /// UTC day on which the cleanup last ran.
    pub last_cleaned_day: Option<u64>,
}

/// Whether a start at monotonic time `now_ms` comes too soon after the last.
pub open spec fn debounced(last_start_ms: Option<u64>, now_ms: u64) -> bool {
    match last_start_ms {
        Some(t) => now_ms < t + RESTART_DEBOUNCE_MS,
        None => false,
    }
}

/// Whether the ingestion task runs: started and not yet exited.
pub open spec fn is_running(s: Supervisor, e: TickInput) -> bool {
    s.ingestion_started && !e.task_finished
}

/// The actions of one tick.
pub open spec fn plan_of(s: Supervisor, e: TickInput) -> TickPlan {
    let inside = s.window.contains(e.utc_ms);
    let today = day_of(e.utc_ms);
    let tod = time_of_day(e.utc_ms);
    TickPlan {
        stop_ingestion: inside && s.ingestion_started,
        push: inside && tod < s.window.clean_ms && s.last_pushed_day != Some(today),
        clean: inside && tod >= s.window.clean_ms && s.last_cleaned_day != Some(today),
        start_ingestion: !inside && !is_running(s, e) && !debounced(
            s.last_start_ms,
            e.monotonic_ms,
        ),
    }
}

/// The state after one tick.
pub open spec fn next_of(s: Supervisor, e: TickInput) -> Supervisor {
    let p = plan_of(s, e);
    let today = day_of(e.utc_ms);
    Supervisor {
        window: s.window,
        ingestion_started: if p.stop_ingestion {
            false
        } else if p.start_ingestion {
            true
        } else {
            s.ingestion_started
        },
        last_start_ms: if p.start_ingestion {
            Some(e.monotonic_ms)
        } else {
            s.last_start_ms
        },
        last_pushed_day: if p.push {
            Some(today)
        } else {
            s.last_pushed_day
        },
        last_cleaned_day: if p.clean {
            Some(today)
        } else {
            s.last_cleaned_day
        },
    }
}

/// How many ticks of a run launch the export task.
pub open spec fn push_count(s: Supervisor, es: Seq<TickInput>) -> nat
    decreases es.len(),
{
    if es.len() == 0 {
        0
    } else {
        (if plan_of(s, es[0]).push {
            1nat
        } else {
            0nat
        }) + push_count(next_of(s, es[0]), es.drop_first())
    }
}

/// How many ticks of a run launch the cleanup.
pub open spec fn clean_count(s: Supervisor, es: Seq<TickInput>) -> nat
    decreases es.len(),
{
    if es.len() == 0 {
        0
    } else {
        (if plan_of(s, es[0]).clean {
            1nat
        } else {
            0nat
        }) + clean_count(next_of(s, es[0]), es.drop_first())
    }
}

/// All ticks of a run fall on UTC day `d`.
pub open spec fn all_on_day(es: Seq<TickInput>, d: u64) -> bool {
    forall|i: int| 0 <= i < es.len() ==> day_of(#[trigger] es[i].utc_ms) == d
}

/// Two start requests less than the debounce interval apart start the
/// ingestion task once: after a tick that started it, a tick that comes
/// sooner than the debounce interval later does not start it again, even
/// where the task has already exited.
pub proof fn lemma_debounce(s: Supervisor, e1: TickInput, e2: TickInput)
    requires
        e1.monotonic_ms <= e2.monotonic_ms,
        e2.monotonic_ms < e1.monotonic_ms + RESTART_DEBOUNCE_MS,
        plan_of(s, e1).start_ingestion,
    ensures
        !plan_of(next_of(s, e1), e2).start_ingestion,
{
}

/// Inside the maintenance window the ingestion task is not left running;
/// outside it, the task runs after the tick unless the start comes within
/// the debounce interval of the previous one.
pub proof fn lemma_maintenance_exclusive(s: Supervisor, e: TickInput)
    ensures
        s.window.contains(e.utc_ms) ==> !next_of(s, e).ingestion_started,
        s.window.contains(e.utc_ms) && is_running(s, e) ==> plan_of(s, e).stop_ingestion,
        !s.window.contains(e.utc_ms) && !debounced(s.last_start_ms, e.monotonic_ms)
            ==> next_of(s, e).ingestion_started && !plan_of(s, e).stop_ingestion,
{
}

proof fn lemma_no_push_after_done(s: Supervisor, es: Seq<TickInput>, d: u64)
    requires
        all_on_day(es, d),
        s.last_pushed_day == Some(d),
    ensures
        push_count(s, es) == 0,
    decreases es.len(),
{
    if es.len() > 0 {
        assert(day_of(es[0].utc_ms) == d);
        assert(all_on_day(es.drop_first(), d)) by {
            assert forall|i: int| 0 <= i < es.drop_first().len() implies day_of(
                #[trigger] es.drop_first()[i].utc_ms,
            ) == d by {
                assert(es.drop_first()[i] == es[i + 1]);
            }
        }
        lemma_no_push_after_done(next_of(s, es[0]), es.drop_first(), d);
    }
}

proof fn lemma_no_clean_after_done(s: Supervisor, es: Seq<TickInput>, d: u64)
    requires
        all_on_day(es, d),
        s.last_cleaned_day == Some(d),
    ensures
        clean_count(s, es) == 0,
    decreases es.len(),
{
    if es.len() > 0 {
        assert(day_of(es[0].utc_ms) == d);
        assert(all_on_day(es.drop_first(), d)) by {
            assert forall|i: int| 0 <= i < es.drop_first().len() implies day_of(
                #[trigger] es.drop_first()[i].utc_ms,
            ) == d by {
                assert(es.drop_first()[i] == es[i + 1]);
            }
        }
        lemma_no_clean_after_done(next_of(s, es[0]), es.drop_first(), d);
    }
}

/// The export task and the cleanup each run at most once per UTC calendar
/// day, however many ticks fall on that day and whatever state the day
/// starts from.
pub proof fn lemma_daily_tasks_once(s: Supervisor, es: Seq<TickInput>, d: u64)
    requires
        all_on_day(es, d),
    ensures
        push_count(s, es) <= 1,
        clean_count(s, es) <= 1,
    decreases es.len(),
{
    if es.len() > 0 {
        let s1 = next_of(s, es[0]);
        assert(day_of(es[0].utc_ms) == d);
        assert(all_on_day(es.drop_first(), d)) by {
            assert forall|i: int| 0 <= i < es.drop_first().len() implies day_of(
                #[trigger] es.drop_first()[i].utc_ms,
            ) == d by {
                assert(es.drop_first()[i] == es[i + 1]);
            }
        }
        if plan_of(s, es[0]).push {
            lemma_no_push_after_done(s1, es.drop_first(), d);
        }
        if plan_of(s, es[0]).clean {
            lemma_no_clean_after_done(s1, es.drop_first(), d);
        }
        lemma_daily_tasks_once(s1, es.drop_first(), d);
    }
}

impl Supervisor {
    /// A supervisor with nothing started and no daily task done yet.
    pub fn new(window: MaintenanceWindow) -> (r: Self)
        ensures
            r == (Supervisor {
                window,
                ingestion_started: false,
                last_start_ms: None,
                last_pushed_day: None,
                last_cleaned_day: None,
            }),
    {
        Supervisor {
            window,
            ingestion_started: false,
            last_start_ms: None,
            last_pushed_day: None,
            last_cleaned_day: None,
        }
    }

    /// Decides the actions of one tick and records them in the state.
    pub fn tick(&mut self, e: &TickInput) -> (p: TickPlan)
        ensures
            p == plan_of(*old(self), *e),
            *final(self) == next_of(*old(self), *e),
    {
        let today: u64 = e.utc_ms / MS_PER_DAY;
        let tod: u64 = e.utc_ms % MS_PER_DAY;
        let inside = self.window.start_ms <= tod && tod < self.window.end_ms;
        let running = self.ingestion_started && !e.task_finished;
        let too_soon = match self.last_start_ms {
            Some(t) => e.monotonic_ms < t || e.monotonic_ms - t < RESTART_DEBOUNCE_MS,
            None => false,
        };
        let plan = TickPlan {
            stop_ingestion: inside && self.ingestion_started,
            push: inside && tod < self.window.clean_ms && self.last_pushed_day != Some(today),
            clean: inside && tod >= self.window.clean_ms && self.last_cleaned_day != Some(today),
            start_ingestion: !inside && !running && !too_soon,
        };
        if plan.stop_ingestion {
            self.ingestion_started = false;
        } else if plan.start_ingestion {
            self.ingestion_started = true;
        }
        if plan.start_ingestion {
            self.last_start_ms = Some(e.monotonic_ms);
        }
        if plan.push {
            self.last_pushed_day = Some(today);
        }
        if plan.clean {
            self.last_cleaned_day = Some(today);
        }
        plan
    }
}

} // verus!
