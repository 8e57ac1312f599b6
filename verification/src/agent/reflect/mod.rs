//! The evening reflection: once a day the conversations that changed since the
//! last run are digested into notes. What the reflector writes is staged; notes,
//! persona and the time of the run are written once every conversation was
//! digested.

use vstd::prelude::*;

use crate::config::ReflectConfig;
use crate::error::{ApiError, ApiErrorKind};
use crate::fields::{read_record, read_uint_or};
use crate::json::{Json, JsonView};
use crate::memory::store::{local_date_from_unix, local_minutes_from_unix, LocalTm};
use crate::text::{less, same};

pub mod digest;
pub mod digest_laws;
pub mod laws;
pub mod parse;
pub mod parse_laws;
pub mod schedule;

verus! {

/// How often the clock is looked at, in seconds.
pub const REFLECT_TICK_SECS: u64 = 60;

/// What a reflection did.
#[derive(Debug, Clone, Copy, PartialEq, Eq, Structural)]
pub enum ReflectStatus {
    /// It is switched off.
    Disabled,
    /// Its time has not come.
    NotDue,
    /// It ran, perhaps with nothing to digest.
    Ran,
}

/// The outcome of a reflection.
#[derive(Debug, Clone, Copy, PartialEq, Eq, Structural)]
pub struct ReflectOutcome {
    pub status: ReflectStatus,
    /// Conversations digested.
    pub conversations: usize,
    /// Notes written.
    pub notes: usize,
    /// Whether a revision of the persona was applied.
    pub persona_changed: bool,
}

/// The outcome of a reflection that did nothing.
pub open spec fn nothing_done(status: ReflectStatus) -> ReflectOutcome {
    ReflectOutcome { status: status, conversations: 0, notes: 0, persona_changed: false }
}

fn did_nothing(status: ReflectStatus) -> (r: ReflectOutcome)
    ensures
        r == nothing_done(status),
{
    ReflectOutcome { status, conversations: 0, notes: 0, persona_changed: false }
}

/// A scheduled run: a local date and the minutes since midnight.
#[derive(Debug, PartialEq, Eq)]
pub struct Cycle {
    pub date: String,
    pub minutes: u32,
}

/// The content of a [`Cycle`].
#[verifier::ext_equal]
pub struct CycleView {
    pub date: Seq<char>,
    pub minutes: u32,
}

impl View for Cycle {
    type V = CycleView;

    open spec fn view(&self) -> CycleView {
        CycleView { date: self.date@, minutes: self.minutes }
    }
}

/// Whether a run comes before another.
pub open spec fn cycle_before(a: CycleView, b: CycleView) -> bool {
    crate::text::lex_lt(a.date, b.date) || (a.date == b.date && a.minutes < b.minutes)
}

impl Cycle {
    /// Whether this run comes before another.
    pub fn before(&self, other: &Cycle) -> (r: bool)
        ensures
            r == cycle_before(self@, other@),
    {
        less(self.date.as_str(), other.date.as_str()) || (same(
            self.date.as_str(),
            other.date.as_str(),
        ) && self.minutes < other.minutes)
    }
}

/// The local times that the schedule looks at; none where the system has no
/// answer.
#[derive(Debug, Clone, Copy)]
pub struct LocalClock {
    /// Now.
    pub now: Option<LocalTm>,
    /// A day before now.
    pub day_before: Option<LocalTm>,
    /// At the last run.
    pub last_run: Option<LocalTm>,
}

/// A number of seconds as a signed one.
pub open spec fn signed(n: u64) -> int {
    if n <= i64::MAX {
        n as int
    } else {
        n - 0x1_0000_0000_0000_0000
    }
}

fn as_signed(n: u64) -> (r: i64)
    ensures
        r == signed(n),
{
    if n <= i64::MAX as u64 {
        n as i64
    } else {
        -((u64::MAX - n) as i64) - 1
    }
}

/// Minutes since midnight of a moment.
pub open spec fn minutes_of(unix: int, tm: Option<LocalTm>) -> u32 {
    match tm {
        Some(t) => (t.hour * 60 + t.minute) as u32,
        None => ((unix % 86400) / 60) as u32,
    }
}

/// The reflection as it is configured.
#[derive(Debug, Clone, Copy)]
pub struct Reflector {
    pub enabled: bool,
    /// The time of the daily run in minutes since midnight.
    pub scheduled_minutes: u32,
    /// Whether the persona may be revised.
    pub persona_edits: bool,
}

/// The scheduled run that came last.
pub open spec fn cycle_at(r: Reflector, now: u64, clock: LocalClock) -> CycleView {
    let unix = signed(now);
    CycleView {
        date: if minutes_of(unix, clock.now) >= r.scheduled_minutes {
            crate::memory::store::local_day(unix, clock.now)
        } else {
            crate::memory::store::local_day(unix - 86400, clock.day_before)
        },
        minutes: r.scheduled_minutes,
    }
}

/// The time of the last run.
pub open spec fn run_at(last_run: u64, clock: LocalClock) -> CycleView {
    CycleView {
        date: crate::memory::store::local_day(signed(last_run), clock.last_run),
        minutes: minutes_of(signed(last_run), clock.last_run),
    }
}

/// The scheduled run that is due: the last one, unless a run came after it.
pub open spec fn due(r: Reflector, now: u64, last_run: u64, clock: LocalClock) -> Option<CycleView> {
    if r.enabled && cycle_before(run_at(last_run, clock), cycle_at(r, now, clock)) {
        Some(cycle_at(r, now, clock))
    } else {
        None
    }
}

impl Reflector {
    /// The reflection of a configuration. It needs a place for its notes.
    pub fn from_config(config: &ReflectConfig, has_memory: bool) -> (r: Result<
        Reflector,
        ApiError,
    >)
        ensures
            r is Ok <==> has_memory,
            r matches Ok(x) ==> x.enabled == config.enabled && x.persona_edits
                == config.persona_edits && x.scheduled_minutes < 1440 && x.scheduled_minutes
                == match crate::config::sections::hhmm(config.time@) {
                Some(m) => m,
                None => crate::config::sections::DEFAULT_REFLECT_MINUTES,
            },
            r matches Err(e) ==> e@ == crate::error::failure(
                ApiErrorKind::Config,
                "evening reflection requires a memory store on the core"@,
            ),
    {
        if !has_memory {
            return Err(
                ApiError::config("evening reflection requires a memory store on the core"),
            );
        }
        Ok(
            Reflector {
                enabled: config.enabled,
                scheduled_minutes: config.scheduled_minutes(),
                persona_edits: config.persona_edits,
            },
        )
    }

    /// The scheduled run that came last.
    pub fn scheduled_cycle(&self, now: u64, clock: LocalClock) -> (r: Cycle)
        requires
            signed(now) >= i64::MIN + 86400,
        ensures
            r@ == cycle_at(*self, now, clock),
    {
        let unix = as_signed(now);
        let date = if local_minutes_from_unix(unix, clock.now) >= self.scheduled_minutes {
            local_date_from_unix(unix, clock.now)
        } else {
            local_date_from_unix(unix - 86400, clock.day_before)
        };
        Cycle { date, minutes: self.scheduled_minutes }
    }

    /// The scheduled run that is due, if the last run came before it.
    pub fn due_cycle(&self, now: u64, last_run: u64, clock: LocalClock) -> (r: Option<Cycle>)
        requires
            signed(now) >= i64::MIN + 86400,
        ensures
            crate::fields::opt_view(r) == due(*self, now, last_run, clock),
    {
        if !self.enabled {
            return None;
        }
        let cycle = self.scheduled_cycle(now, clock);
        let last = as_signed(last_run);
        let last_cycle = Cycle {
            date: local_date_from_unix(last, clock.last_run),
            minutes: local_minutes_from_unix(last, clock.last_run),
        };
        if last_cycle.before(&cycle) {
            Some(cycle)
        } else {
            None
        }
    }

    /// Whether a scheduled run has nothing to do: then its outcome, and none
    /// where the digest is to run.
    pub fn run_scheduled(&self, now: u64, last_run: u64, clock: LocalClock) -> (r: Option<
        ReflectOutcome,
    >)
        requires
            signed(now) >= i64::MIN + 86400,
        ensures
            r == if !self.enabled {
                Some(nothing_done(ReflectStatus::Disabled))
            } else if due(*self, now, last_run, clock) is None {
                Some(nothing_done(ReflectStatus::NotDue))
            } else {
                None
            },
    {
        if !self.enabled {
            return Some(did_nothing(ReflectStatus::Disabled));
        }
        match self.due_cycle(now, last_run, clock) {
            None => Some(did_nothing(ReflectStatus::NotDue)),
            Some(_) => None,
        }
    }

    /// Whether a run on demand has nothing to do: it does not wait for its
    /// time, but it must be switched on.
    pub fn run_now(&self) -> (r: Option<ReflectOutcome>)
        ensures
            r == if !self.enabled {
                Some(nothing_done(ReflectStatus::Disabled))
            } else {
                None
            },
    {
        if !self.enabled {
            Some(did_nothing(ReflectStatus::Disabled))
        } else {
            None
        }
    }
}

/// The time of the last run in the text of the state file. What cannot be read
/// counts as never.
pub open spec fn last_run_in(text: Option<Seq<char>>) -> u64 {
    match text {
        None => 0,
        Some(t) => match crate::json::parsed(t) {
            Err(_) => 0,
            Ok(j) => match crate::fields::record(j, seq!["lastRun"@], true) {
                None => 0,
                Some(o) => match crate::fields::uint_or(o, "lastRun"@, 0, u64::MAX) {
                    Some(n) => n,
                    None => 0,
                },
            },
        },
    }
}

/// The time of the last run in the text of the state file.
pub fn last_run(text: Option<&str>) -> (r: u64)
    ensures
        r == last_run_in(
            match text {
                Some(t) => Some(t@),
                None => None,
            },
        ),
{
    let j = match text {
        None => {
            return 0;
        },
        Some(t) => match Json::parse(t) {
            Ok(j) => j,
            Err(_) => {
                return 0;
            },
        },
    };
    let names: Vec<&str> = vec!["lastRun"];
    assert(crate::fields::names_of(names@) =~= seq!["lastRun"@]);
    match read_record(&j, &names, true) {
        None => 0,
        Some(o) => match read_uint_or(&o, "lastRun", 0, u64::MAX) {
            Some(n) => n,
            None => 0,
        },
    }
}

/// The fields of the state file.
pub open spec fn state_fields(now: u64) -> Seq<crate::json::FieldView> {
    seq![crate::json::entry("lastRun"@, JsonView::U64(now))]
}

/// The text of the state file after a run. It reads back as the time of that
/// run.
pub fn state_text(now: u64) -> (r: String)
    ensures
        r@ == crate::json::tree_pretty(
            crate::json::settle(crate::json::object(state_fields(now))),
        ),
        last_run_in(Some(r@)) == now,
{
    let ghost f = |f: (&str, Json)| crate::json::entry(f.0@, f.1@);
    let fields: Vec<(&str, Json)> = vec![("lastRun", Json::of_u64(now))];
    assert(fields@.map_values(f) =~= state_fields(now));
    let j = Json::of_fields(fields);
    let r = j.to_pretty_text();
    proof {
        let all = state_fields(now);
        crate::json::lemma_collect_has(all, 0);
        crate::json::lemma_tidy_object(all, crate::json::MAX_NESTING as nat);
        crate::json::lemma_settle(j@);
    }
    r
}

} // verus!
