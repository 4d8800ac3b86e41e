//! Taking profiles: what to do next, and what comes of it.

use vstd::prelude::*;

use crate::server::StatusServer;

verus! {

/// How often the processor is sampled for a profile, in times per second.
pub const CPU_PROFILE_FREQUENCY: i32 = 100;

/// What the file is called that a heap profile is dumped to.
pub const HEAP_PROFILE_FILE: &'static str = "tikv_dump_profile";

/// Why there is no profile.
#[derive(Debug)]
pub enum ProfError {
    /// The allocator cannot profile the heap, for the given reason.
    MemProfiling(String),
    /// A file or a directory could not be made or read.
    IOError(std::io::Error),
    /// The given path is not UTF-8.
    PathError(String),
    /// The processor is being profiled already.
    CpuProfilingLockFailed,
    /// The samples of the processor could not be reported.
    CPUProfilingReportFailed,
}

impl From<std::io::Error> for ProfError {
    fn from(err: std::io::Error) -> (error: Self) {
        ProfError::IOError(err)
    }
}

impl vstd::std_specs::convert::FromSpecImpl<std::io::Error> for ProfError {
    open spec fn obeys_from_spec() -> bool {
        true
    }

    open spec fn from_spec(err: std::io::Error) -> Self {
        ProfError::IOError(err)
    }
}

/// The heap is being profiled, and the lock on its profiles is wanted.
#[derive(Debug)]
pub struct ProfLock;

/// The heap is being profiled, and the lock on its profiles is held. Whoever
/// holds it stops the profiling in the end.
#[derive(Debug)]
pub struct ProfGuard;

impl ProfLock {
    /// Wants the lock, if profiling could be started.
    pub fn new(activated: Result<(), ProfError>) -> (lock: Result<ProfLock, ProfError>)
        ensures
            lock == match activated {
                Ok(_) => Ok::<ProfLock, ProfError>(ProfLock),
                Err(e) => Err::<ProfLock, ProfError>(e),
            },
    {
        match activated {
            Ok(_) => Ok(ProfLock),
            Err(e) => Err(e),
        }
    }

    /// Holds the lock, if it was given.
    pub fn poll(self, given: bool) -> (guard: Option<ProfGuard>)
        ensures
            guard == if given {
                Some(ProfGuard)
            } else {
                None
            },
    {
        if given {
            Some(ProfGuard)
        } else {
            None
        }
    }
}

/// How far a heap profile is, and with that what is to be done next.
#[derive(Debug)]
pub enum HeapDump {
    /// Ask for the lock, and start to profile the heap.
    Activating(u64),
    /// Wait for the lock.
    Locking(u64, ProfLock),
    /// Wait for so many seconds.
    Waiting(u64, Option<ProfGuard>),
    /// Make a directory of its own for the profile.
    MakingDir(Option<ProfGuard>),
    /// Find the path of the profile in that directory.
    NamingFile(Option<ProfGuard>),
    /// Dump the profile to this path.
    Dumping(String, Option<ProfGuard>),
    /// Stop profiling and give the lock back, then read the profile at this path.
    Releasing(ProfGuard, String),
    /// Stop profiling and give the lock back, then end with this error.
    Abandoning(ProfGuard, ProfError),
    /// Read the profile at this path.
    Reading(String),
    /// Nothing: this is the profile, or the reason why there is none.
    Done(Result<Vec<u8>, ProfError>),
}

/// What came of the last thing that was to be done for a heap profile.
#[derive(Debug)]
pub enum HeapEvent {
    Activated(Result<(), ProfError>),
    Locked(bool),
    Waited,
    DirMade(Result<(), std::io::Error>),
    FileNamed(Result<String, String>),
    Dumped(Result<(), ProfError>),
    Released,
    ReadBack(Result<Vec<u8>, std::io::Error>),
}

/// How a heap profile ends early: the lock is given back first if it is held.
pub open spec fn abandoned(guard: Option<ProfGuard>, error: ProfError) -> HeapDump {
    match guard {
        Some(guard) => HeapDump::Abandoning(guard, error),
        None => HeapDump::Done(Err(error)),
    }
}

/// What a heap profile becomes when something has happened. What it does not
/// wait for changes nothing.
pub open spec fn stepped(dump: HeapDump, event: HeapEvent) -> HeapDump {
    match (dump, event) {
        (HeapDump::Activating(seconds), HeapEvent::Activated(Ok(_))) => HeapDump::Locking(
            seconds,
            ProfLock,
        ),
        (HeapDump::Activating(_), HeapEvent::Activated(Err(e))) => HeapDump::Done(Err(e)),
        (HeapDump::Locking(seconds, _), HeapEvent::Locked(given)) => HeapDump::Waiting(
            seconds,
            if given {
                Some(ProfGuard)
            } else {
                None
            },
        ),
        (HeapDump::Waiting(_, guard), HeapEvent::Waited) => HeapDump::MakingDir(guard),
        (HeapDump::MakingDir(guard), HeapEvent::DirMade(Ok(_))) => HeapDump::NamingFile(guard),
        (HeapDump::MakingDir(guard), HeapEvent::DirMade(Err(e))) => abandoned(
            guard,
            ProfError::IOError(e),
        ),
        (HeapDump::NamingFile(guard), HeapEvent::FileNamed(Ok(path))) => HeapDump::Dumping(
            path,
            guard,
        ),
        (HeapDump::NamingFile(guard), HeapEvent::FileNamed(Err(path))) => abandoned(
            guard,
            ProfError::PathError(path),
        ),
        (HeapDump::Dumping(path, guard), HeapEvent::Dumped(Ok(_))) => match guard {
            Some(guard) => HeapDump::Releasing(guard, path),
            None => HeapDump::Reading(path),
        },
        (HeapDump::Dumping(_, guard), HeapEvent::Dumped(Err(e))) => abandoned(guard, e),
        (HeapDump::Releasing(_, path), HeapEvent::Released) => HeapDump::Reading(path),
        (HeapDump::Abandoning(_, e), HeapEvent::Released) => HeapDump::Done(Err(e)),
        (HeapDump::Reading(_), HeapEvent::ReadBack(Ok(profile))) => HeapDump::Done(Ok(profile)),
        (HeapDump::Reading(_), HeapEvent::ReadBack(Err(e))) => HeapDump::Done(
            Err(ProfError::IOError(e)),
        ),
        _ => dump,
    }
}

impl HeapDump {
    /// Ends early: the lock is given back first if it is held.
    fn abandon(guard: Option<ProfGuard>, error: ProfError) -> (dump: HeapDump)
        ensures
            dump == abandoned(guard, error),
    {
        match guard {
            Some(guard) => HeapDump::Abandoning(guard, error),
            None => HeapDump::Done(Err(error)),
        }
    }

    /// Goes on with what has happened.
    pub fn step(self, event: HeapEvent) -> (dump: HeapDump)
        ensures
            dump == stepped(self, event),
    {
        match (self, event) {
            (HeapDump::Activating(seconds), HeapEvent::Activated(activated)) => {
                match ProfLock::new(activated) {
                    Ok(lock) => HeapDump::Locking(seconds, lock),
                    Err(e) => HeapDump::Done(Err(e)),
                }
            },
            (HeapDump::Locking(seconds, lock), HeapEvent::Locked(given)) => HeapDump::Waiting(
                seconds,
                lock.poll(given),
            ),
            (HeapDump::Waiting(_, guard), HeapEvent::Waited) => HeapDump::MakingDir(guard),
            (HeapDump::MakingDir(guard), HeapEvent::DirMade(Ok(_))) => HeapDump::NamingFile(guard),
            (HeapDump::MakingDir(guard), HeapEvent::DirMade(Err(e))) => Self::abandon(
                guard,
                ProfError::from(e),
            ),
            (HeapDump::NamingFile(guard), HeapEvent::FileNamed(Ok(path))) => HeapDump::Dumping(
                path,
                guard,
            ),
            (HeapDump::NamingFile(guard), HeapEvent::FileNamed(Err(path))) => Self::abandon(
                guard,
                ProfError::PathError(path),
            ),
            (HeapDump::Dumping(path, guard), HeapEvent::Dumped(Ok(_))) => match guard {
                Some(guard) => HeapDump::Releasing(guard, path),
                None => HeapDump::Reading(path),
            },
            (HeapDump::Dumping(_, guard), HeapEvent::Dumped(Err(e))) => Self::abandon(guard, e),
            (HeapDump::Releasing(_, path), HeapEvent::Released) => HeapDump::Reading(path),
            (HeapDump::Abandoning(_, e), HeapEvent::Released) => HeapDump::Done(Err(e)),
            (HeapDump::Reading(_), HeapEvent::ReadBack(Ok(profile))) => HeapDump::Done(Ok(profile)),
            (HeapDump::Reading(_), HeapEvent::ReadBack(Err(e))) => HeapDump::Done(
                Err(ProfError::from(e)),
            ),
            (dump, _) => dump,
        }
    }
}

/// How far a profile of the processor is, and with that what is to be done next.
#[derive(Debug)]
pub enum CpuDump {
    /// Start to sample the processor.
    Starting(u64),
    /// Wait for so many seconds.
    Waiting(u64),
    /// Report the samples and encode the report.
    Reporting,
    /// Nothing: this is the profile, or the reason why there is none.
    Done(Result<Vec<u8>, ProfError>),
}

/// What came of the last thing that was to be done for a profile of the processor.
#[derive(Debug)]
pub enum CpuEvent {
    /// Sampling was started, or not.
    Started(bool),
    Waited,
    /// The encoded report; `None` if there is no report or it has no such encoding.
    Reported(Option<Vec<u8>>),
}

/// What a profile of the processor becomes when something has happened. What it
/// does not wait for changes nothing.
pub open spec fn cpu_stepped(dump: CpuDump, event: CpuEvent) -> CpuDump {
    match (dump, event) {
        (CpuDump::Starting(seconds), CpuEvent::Started(started)) => if started {
            CpuDump::Waiting(seconds)
        } else {
            CpuDump::Done(Err(ProfError::CpuProfilingLockFailed))
        },
        (CpuDump::Waiting(_), CpuEvent::Waited) => CpuDump::Reporting,
        (CpuDump::Reporting, CpuEvent::Reported(Some(profile))) => CpuDump::Done(Ok(profile)),
        (CpuDump::Reporting, CpuEvent::Reported(None)) => CpuDump::Done(
            Err(ProfError::CPUProfilingReportFailed),
        ),
        _ => dump,
    }
}

impl CpuDump {
    /// Goes on with what has happened.
    pub fn step(self, event: CpuEvent) -> (dump: CpuDump)
        ensures
            dump == cpu_stepped(self, event),
    {
        match (self, event) {
            (CpuDump::Starting(seconds), CpuEvent::Started(started)) => if started {
                CpuDump::Waiting(seconds)
            } else {
                CpuDump::Done(Err(ProfError::CpuProfilingLockFailed))
            },
            (CpuDump::Waiting(_), CpuEvent::Waited) => CpuDump::Reporting,
            (CpuDump::Reporting, CpuEvent::Reported(report)) => match report {
                Some(profile) => CpuDump::Done(Ok(profile)),
                None => CpuDump::Done(Err(ProfError::CPUProfilingReportFailed)),
            },
            (dump, _) => dump,
        }
    }
}

impl StatusServer {
    /// Begins a profile of the heap over so many seconds.
    pub fn dump_prof(seconds: u64) -> (dump: HeapDump)
        ensures
            dump == HeapDump::Activating(seconds),
    {
        HeapDump::Activating(seconds)
    }

    /// Begins a profile of the processor over so many seconds.
    pub fn dump_cpu_prof(seconds: u64) -> (dump: CpuDump)
        ensures
            dump == CpuDump::Starting(seconds),
    {
        CpuDump::Starting(seconds)
    }
}

/// The lock on the heap profiles is held.
pub open spec fn holds_lock(dump: HeapDump) -> bool {
    match dump {
        HeapDump::Waiting(_, guard) => guard is Some,
        HeapDump::MakingDir(guard) => guard is Some,
        HeapDump::NamingFile(guard) => guard is Some,
        HeapDump::Dumping(_, guard) => guard is Some,
        HeapDump::Releasing(_, _) => true,
        HeapDump::Abandoning(_, _) => true,
        _ => false,
    }
}

/// The event is one that the heap profile waits for.
pub open spec fn awaits(dump: HeapDump, event: HeapEvent) -> bool {
    match dump {
        HeapDump::Activating(_) => event is Activated,
        HeapDump::Locking(_, _) => event is Locked,
        HeapDump::Waiting(_, _) => event is Waited,
        HeapDump::MakingDir(_) => event is DirMade,
        HeapDump::NamingFile(_) => event is FileNamed,
        HeapDump::Dumping(_, _) => event is Dumped,
        HeapDump::Releasing(_, _) => event is Released,
        HeapDump::Abandoning(_, _) => event is Released,
        HeapDump::Reading(_) => event is ReadBack,
        HeapDump::Done(_) => false,
    }
}

/// How many awaited events can still come.
pub open spec fn events_left(dump: HeapDump) -> nat {
    match dump {
        HeapDump::Activating(_) => 8,
        HeapDump::Locking(_, _) => 7,
        HeapDump::Waiting(_, _) => 6,
        HeapDump::MakingDir(_) => 5,
        HeapDump::NamingFile(_) => 4,
        HeapDump::Dumping(_, _) => 3,
        HeapDump::Releasing(_, _) => 2,
        HeapDump::Abandoning(_, _) => 1,
        HeapDump::Reading(_) => 1,
        HeapDump::Done(_) => 0,
    }
}

/// What a heap profile becomes over a run of events.
pub open spec fn after_events(dump: HeapDump, events: Seq<HeapEvent>) -> HeapDump
    decreases events.len(),
{
    if events.len() == 0 {
        dump
    } else {
        stepped(after_events(dump, events.drop_last()), events.last())
    }
}

/// How many times the lock was taken over a run of events.
pub open spec fn times_locked(dump: HeapDump, events: Seq<HeapEvent>) -> nat
    decreases events.len(),
{
    if events.len() == 0 {
        0
    } else {
        let before = after_events(dump, events.drop_last());
        times_locked(dump, events.drop_last()) + if !holds_lock(before) && holds_lock(
            stepped(before, events.last()),
        ) {
            1nat
        } else {
            0
        }
    }
}

/// How many times profiling was stopped and the lock given back over a run of events.
pub open spec fn times_released(dump: HeapDump, events: Seq<HeapEvent>) -> nat
    decreases events.len(),
{
    if events.len() == 0 {
        0
    } else {
        let before = after_events(dump, events.drop_last());
        times_released(dump, events.drop_last()) + if holds_lock(before) && events.last()
            == HeapEvent::Released {
            1nat
        } else {
            0
        }
    }
}

/// The lock is taken only when it is given, and given back only when that was
/// asked for; while the profile is read, and in the end, it is not held.
pub proof fn law_lock_changes_hands(dump: HeapDump, event: HeapEvent)
    ensures
        !holds_lock(dump) && holds_lock(stepped(dump, event)) ==> dump is Locking && event
            == HeapEvent::Locked(true),
        holds_lock(dump) && !holds_lock(stepped(dump, event)) ==> event == HeapEvent::Released && (
        dump is Releasing || dump is Abandoning),
        stepped(dump, event) is Reading ==> !holds_lock(stepped(dump, event)),
        stepped(dump, event) is Done ==> !holds_lock(stepped(dump, event)),
{
}

proof fn lemma_lock_count(dump: HeapDump, events: Seq<HeapEvent>)
    requires
        !holds_lock(dump),
        forall|i: int| 0 <= i < events.len() ==> awaits(
            after_events(dump, events.take(i)),
            #[trigger] events[i],
        ),
    ensures
        times_locked(dump, events) == times_released(dump, events) + if holds_lock(
            after_events(dump, events),
        ) {
            1nat
        } else {
            0
        },
    decreases events.len(),
{
    if events.len() > 0 {
        let rest = events.drop_last();
        assert forall|i: int| 0 <= i < rest.len() implies awaits(
            after_events(dump, rest.take(i)),
            #[trigger] rest[i],
        ) by {
            assert(rest.take(i) =~= events.take(i));
            assert(rest[i] == events[i]);
        }
        lemma_lock_count(dump, rest);
        assert(events.take(events.len() - 1) =~= rest);
        assert(awaits(after_events(dump, rest), events[events.len() - 1]));
        law_lock_changes_hands(after_events(dump, rest), events.last());
    }
}

/// Whatever happens on the way, a heap profile that has come to its end has
/// given the lock back as often as it has taken it.
pub proof fn law_lock_is_given_back(seconds: u64, events: Seq<HeapEvent>)
    requires
        forall|i: int| 0 <= i < events.len() ==> awaits(
            after_events(HeapDump::Activating(seconds), events.take(i)),
            #[trigger] events[i],
        ),
        after_events(HeapDump::Activating(seconds), events) is Done,
    ensures
        times_released(HeapDump::Activating(seconds), events) == times_locked(
            HeapDump::Activating(seconds),
            events,
        ),
{
    lemma_lock_count(HeapDump::Activating(seconds), events);
}

/// Every awaited event brings a heap profile nearer to its end, which it has
/// reached exactly when it waits for nothing more.
pub proof fn law_heap_profile_comes_to_its_end(dump: HeapDump, event: HeapEvent)
    requires
        awaits(dump, event),
    ensures
        events_left(stepped(dump, event)) < events_left(dump),
        events_left(dump) == 0 <==> dump is Done,
{
}

/// A profile that a heap dump ends with is what was read back, and an error is
/// the one that came up.
pub proof fn law_heap_profile_is_what_was_read(dump: HeapDump, event: HeapEvent)
    requires
        !(dump is Done),
    ensures
        stepped(dump, event) matches HeapDump::Done(Ok(profile)) ==> dump is Reading && event
            == HeapEvent::ReadBack(Ok(profile)),
        stepped(dump, event) matches HeapDump::Done(Err(error)) ==> {
            ||| event == HeapEvent::Activated(Err(error))
            ||| event == HeapEvent::Dumped(Err(error))
            ||| dump matches HeapDump::Abandoning(_, cause) && cause == error
            ||| error matches ProfError::IOError(cause) && event == HeapEvent::ReadBack(
                Err(cause),
            )
            ||| error matches ProfError::IOError(cause) && event == HeapEvent::DirMade(Err(cause))
            ||| error matches ProfError::PathError(path) && event == HeapEvent::FileNamed(Err(path))
        },
{
}

/// Without a mishap a heap profile waits for as long as was asked, dumps to the
/// path that was found, and ends with what was read back from there.
pub proof fn law_heap_profile_without_mishap(seconds: u64, path: String, profile: Vec<u8>)
    ensures
        ({
            let sampling = after_events(
                HeapDump::Activating(seconds),
                seq![HeapEvent::Activated(Ok(())), HeapEvent::Locked(true)],
            );
            let dumping = after_events(
                sampling,
                seq![
                    HeapEvent::Waited,
                    HeapEvent::DirMade(Ok(())),
                    HeapEvent::FileNamed(Ok(path)),
                ],
            );
            let reading = after_events(
                dumping,
                seq![HeapEvent::Dumped(Ok(())), HeapEvent::Released],
            );
            &&& sampling == HeapDump::Waiting(seconds, Some(ProfGuard))
            &&& dumping == HeapDump::Dumping(path, Some(ProfGuard))
            &&& reading == HeapDump::Reading(path)
            &&& stepped(reading, HeapEvent::ReadBack(Ok(profile))) == HeapDump::Done(Ok(profile))
        }),
{
    reveal_with_fuel(after_events, 4);
    let first = seq![HeapEvent::Activated(Ok(())), HeapEvent::Locked(true)];
    assert(first.drop_last() =~= seq![HeapEvent::Activated(Ok(()))]);
    assert(first.drop_last().drop_last() =~= seq![]);
    let second = seq![
        HeapEvent::Waited,
        HeapEvent::DirMade(Ok(())),
        HeapEvent::FileNamed(Ok(path)),
    ];
    assert(second.drop_last() =~= seq![HeapEvent::Waited, HeapEvent::DirMade(Ok(()))]);
    assert(second.drop_last().drop_last() =~= seq![HeapEvent::Waited]);
    let third = seq![HeapEvent::Dumped(Ok(())), HeapEvent::Released];
    assert(third.drop_last() =~= seq![HeapEvent::Dumped(Ok(()))]);
}

/// A profile that a dump of the processor ends with is the report that was
/// encoded; it fails only if sampling could not be started or the report not be made.
pub proof fn law_cpu_profile_is_the_report(dump: CpuDump, event: CpuEvent)
    requires
        !(dump is Done),
    ensures
        cpu_stepped(dump, event) matches CpuDump::Done(Ok(profile)) ==> dump is Reporting && event
            == CpuEvent::Reported(Some(profile)),
        cpu_stepped(dump, event) == CpuDump::Done(Err(ProfError::CpuProfilingLockFailed))
            <==> dump is Starting && event == CpuEvent::Started(false),
        cpu_stepped(dump, event) == CpuDump::Done(Err(ProfError::CPUProfilingReportFailed))
            <==> dump is Reporting && event == CpuEvent::Reported(None),
{
}

} // verus!
