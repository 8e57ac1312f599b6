//! The resource limits of one sandboxed run.
//!
//! The process limit counts every thread of the user, so it is taken per run:
//! the threads there are, and a margin.

use vstd::prelude::*;

use crate::config::SandboxConfig;
use crate::text::parse_u32;

verus! {

/// How many processes a run may add to the user's threads.
pub const SANDBOX_NPROC_MARGIN: u64 = 64;

/// The process limit where the user's threads cannot be counted.
pub const SANDBOX_NPROC_FALLBACK: u64 = 4096;

/// The largest file a script may write, in bytes.
pub const SANDBOX_FSIZE_BYTES: u64 = 67_108_864;

/// The limits of one run.
#[derive(Debug, Clone, Copy, PartialEq, Eq, Structural)]
pub struct Limits {
    /// Address space.
    pub memory_bytes: u64,
    /// CPU time: more than the wall clock, so that its timeout fires first.
    pub cpu_secs: u64,
    /// Size of a file.
    pub fsize_bytes: u64,
    /// Wall clock.
    pub wall_secs: u64,
}

/// `n`, or the largest number where it is larger.
pub open spec fn capped(n: int) -> u64 {
    if n > u64::MAX {
        u64::MAX
    } else {
        n as u64
    }
}

impl Limits {
    /// The limits of a configuration.
    pub fn from_config(config: &SandboxConfig) -> (r: Limits)
        ensures
            r.memory_bytes == capped(config.memory_mb * 1_048_576),
            r.cpu_secs == capped(config.timeout_secs + 5),
            r.fsize_bytes == SANDBOX_FSIZE_BYTES,
            r.wall_secs == config.timeout_secs,
    {
        let memory_bytes: u64 = match config.memory_mb.checked_mul(1_048_576) {
            Some(n) => n,
            None => u64::MAX,
        };
        Limits {
            memory_bytes,
            cpu_secs: config.timeout_secs.saturating_add(5),
            fsize_bytes: SANDBOX_FSIZE_BYTES,
            wall_secs: config.timeout_secs,
        }
    }

    /// How long a run may take, in seconds.
    pub fn timeout_secs(&self) -> (r: u64)
        ensures
            r == if self.wall_secs == 0 {
                1
            } else {
                self.wall_secs
            },
    {
        if self.wall_secs == 0 {
            1
        } else {
            self.wall_secs
        }
    }
}

/// The CPU limit lies above the wall clock, so that the clearer timeout comes
/// first.
pub proof fn cpu_limit_leaves_room(wall_secs: u64)
    requires
        wall_secs < u64::MAX,
    ensures
        capped(wall_secs + 5) > wall_secs,
{
}

/// The process limit, given the number of the user's threads where it is known.
pub fn nproc_limit_from(current: Option<u64>) -> (r: u64)
    ensures
        r == match current {
            Some(count) => capped(count + SANDBOX_NPROC_MARGIN),
            None => SANDBOX_NPROC_FALLBACK,
        },
{
    match current {
        Some(count) => count.saturating_add(SANDBOX_NPROC_MARGIN),
        None => SANDBOX_NPROC_FALLBACK,
    }
}

/// An entry of the process table.
#[derive(Debug)]
pub struct ProcEntry {
    pub name: String,
    /// The owner; none where the entry is gone.
    pub uid: Option<u32>,
    /// The number of its threads; none where they cannot be listed.
    pub threads: Option<u64>,
}

/// The content of a [`ProcEntry`].
#[verifier::ext_equal]
pub struct ProcEntryView {
    pub name: Seq<char>,
    pub uid: Option<u32>,
    pub threads: Option<u64>,
}

impl View for ProcEntry {
    type V = ProcEntryView;

    open spec fn view(&self) -> ProcEntryView {
        ProcEntryView { name: self.name@, uid: self.uid, threads: self.threads }
    }
}

/// The threads that an entry adds for a user.
pub open spec fn threads_in(e: ProcEntryView, uid: u32) -> u64 {
    if crate::text::u32_value(e.name) is Some && e.uid == Some(uid) {
        match e.threads {
            Some(n) => n,
            None => 1,
        }
    } else {
        0
    }
}

/// The threads of a user in the process table.
pub open spec fn threads_of(entries: Seq<ProcEntryView>, uid: u32) -> u64
    decreases entries.len(),
{
    if entries.len() == 0 {
        0
    } else {
        capped(threads_of(entries.drop_last(), uid) + threads_in(entries.last(), uid))
    }
}

/// The threads of a user in the process table: entries that are no processes or
/// belong to others do not count.
pub fn count_user_threads(entries: &Vec<ProcEntry>, uid: u32) -> (r: u64)
    ensures
        r == threads_of(crate::fields::views_of(entries@), uid),
{
    let ghost all = crate::fields::views_of(entries@);
    let mut threads: u64 = 0;
    let mut i: usize = 0;
    assert(all.take(0) =~= seq![]);
    while i < entries.len()
        invariant
            i <= entries.len(),
            all == crate::fields::views_of(entries@),
            threads == threads_of(all.take(i as int), uid),
        decreases entries.len() - i,
    {
        assert(all.take(i + 1).drop_last() =~= all.take(i as int));
        assert(all.take(i + 1).last() == entries@[i as int]@);
        let e = &entries[i];
        let own: bool = match e.uid {
            Some(u) => u == uid,
            None => false,
        };
        if own && parse_u32(e.name.as_str()).is_some() {
            let n: u64 = match e.threads {
                Some(n) => n,
                None => 1,
            };
            threads = threads.saturating_add(n);
        }
        i = i + 1;
    }
    assert(all.take(i as int) =~= all);
    threads
}

} // verus!
