//! The steps of profiles.

use vstd::prelude::*;

use crate::profile::{
    CpuDump, CpuEvent, HeapDump, HeapEvent, ProfError, ProfGuard, ProfLock, CPU_PROFILE_FREQUENCY,
    HEAP_PROFILE_FILE,
};
use crate::server::StatusServer;

verus! {

/// A profile of the processor begins by starting to sample; once that is
/// started it waits for exactly as many seconds as were asked for.
pub proof fn law_cpu_profiles_wait_as_asked(seconds: u64, begun: CpuDump, started: CpuDump)
    requires
        call_ensures(StatusServer::dump_cpu_prof, (seconds,), begun),
        call_ensures(CpuDump::step, (begun, CpuEvent::Started(true)), started),
    ensures
        begun == CpuDump::Starting(seconds),
        started == CpuDump::Waiting(seconds),
{
}

/// A profile of the processor that cannot be started fails at once, as one that is running.
pub proof fn law_cpu_profiles_fail_to_start(seconds: u64, begun: CpuDump, failed: CpuDump)
    requires
        call_ensures(StatusServer::dump_cpu_prof, (seconds,), begun),
        call_ensures(CpuDump::step, (begun, CpuEvent::Started(false)), failed),
    ensures
        failed == CpuDump::Done(Err(ProfError::CpuProfilingLockFailed)),
{
}

/// After the wait a profile of the processor reports, and the report is what it
/// ends with; without a report it fails.
pub proof fn law_cpu_profiles_end_with_their_report(
    seconds: u64,
    report: Option<Vec<u8>>,
    waited: CpuDump,
    done: CpuDump,
)
    requires
        call_ensures(CpuDump::step, (CpuDump::Waiting(seconds), CpuEvent::Waited), waited),
        call_ensures(CpuDump::step, (waited, CpuEvent::Reported(report)), done),
    ensures
        waited == CpuDump::Reporting,
        report matches Some(profile) ==> done == CpuDump::Done(Ok(profile)),
        report is None ==> done == CpuDump::Done(Err(ProfError::CPUProfilingReportFailed)),
{
}

/// What a profile of the processor does not wait for changes nothing, and once it
/// is done nothing does.
pub proof fn law_cpu_profiles_take_one_thing_at_a_time(
    dump: CpuDump,
    event: CpuEvent,
    next: CpuDump,
)
    requires
        call_ensures(CpuDump::step, (dump, event), next),
    ensures
        dump is Starting && !(event is Started) ==> next == dump,
        dump is Waiting && !(event is Waited) ==> next == dump,
        dump is Reporting && !(event is Reported) ==> next == dump,
        dump is Done ==> next == dump,
{
}

/// The processor is sampled a hundred times a second, and heap profiles have their name.
pub proof fn law_profiles_are_taken_as_ever()
    ensures
        CPU_PROFILE_FREQUENCY == 100,
        HEAP_PROFILE_FILE@ == "tikv_dump_profile"@,
{
}

/// A heap profile begins by starting to profile; once that is started, and the
/// lock was waited for, it waits for exactly as many seconds as were asked for,
/// also without the lock.
pub proof fn law_heap_profiles_wait_as_asked(
    seconds: u64,
    given: bool,
    begun: HeapDump,
    activated: HeapDump,
    locked: HeapDump,
    waited: HeapDump,
)
    requires
        call_ensures(StatusServer::dump_prof, (seconds,), begun),
        call_ensures(HeapDump::step, (begun, HeapEvent::Activated(Ok(()))), activated),
        call_ensures(HeapDump::step, (activated, HeapEvent::Locked(given)), locked),
        call_ensures(HeapDump::step, (locked, HeapEvent::Waited), waited),
    ensures
        begun == HeapDump::Activating(seconds),
        activated == HeapDump::Locking(seconds, ProfLock),
        given ==> locked == HeapDump::Waiting(seconds, Some(ProfGuard)) && waited
            == HeapDump::MakingDir(Some(ProfGuard)),
        !given ==> locked == HeapDump::Waiting(seconds, None) && waited == HeapDump::MakingDir(None),
{
}

/// After the wait a heap profile is dumped into a directory of its own, to the
/// path that was found there, then the lock is given back if it is held, and then
/// the profile is read back from that path.
pub proof fn law_heap_profiles_are_dumped_and_read_back(
    guard: Option<ProfGuard>,
    path: String,
    profile: Vec<u8>,
    made: HeapDump,
    named: HeapDump,
    dumped: HeapDump,
    reading: HeapDump,
    done: HeapDump,
)
    requires
        call_ensures(
            HeapDump::step,
            (HeapDump::MakingDir(guard), HeapEvent::DirMade(Ok(()))),
            made,
        ),
        call_ensures(HeapDump::step, (made, HeapEvent::FileNamed(Ok(path))), named),
        call_ensures(HeapDump::step, (named, HeapEvent::Dumped(Ok(()))), dumped),
        call_ensures(HeapDump::step, (dumped, HeapEvent::Released), reading),
        call_ensures(HeapDump::step, (reading, HeapEvent::ReadBack(Ok(profile))), done),
    ensures
        made == HeapDump::NamingFile(guard),
        named == HeapDump::Dumping(path, guard),
        guard matches Some(guard) ==> dumped == HeapDump::Releasing(guard, path),
        guard is None ==> dumped == HeapDump::Reading(path),
        reading == HeapDump::Reading(path),
        done == HeapDump::Done(Ok(profile)),
{
}

/// A heap profile that cannot be started, or cannot be read back, ends with the error.
pub proof fn law_heap_profiles_fail_at_their_ends(
    seconds: u64,
    error: ProfError,
    path: String,
    cause: std::io::Error,
    not_started: HeapDump,
    not_read: HeapDump,
)
    requires
        call_ensures(
            HeapDump::step,
            (HeapDump::Activating(seconds), HeapEvent::Activated(Err(error))),
            not_started,
        ),
        call_ensures(
            HeapDump::step,
            (HeapDump::Reading(path), HeapEvent::ReadBack(Err(cause))),
            not_read,
        ),
    ensures
        not_started == HeapDump::Done(Err(error)),
        not_read == HeapDump::Done(Err(ProfError::IOError(cause))),
{
}

/// A heap profile that fails on its way ends with the error, and gives the lock
/// back first if it is held.
pub proof fn law_heap_profiles_give_the_lock_back(
    guard: Option<ProfGuard>,
    path: String,
    no_path: String,
    cause: std::io::Error,
    error: ProfError,
    not_made: HeapDump,
    not_named: HeapDump,
    not_dumped: HeapDump,
)
    requires
        call_ensures(
            HeapDump::step,
            (HeapDump::MakingDir(guard), HeapEvent::DirMade(Err(cause))),
            not_made,
        ),
        call_ensures(
            HeapDump::step,
            (HeapDump::NamingFile(guard), HeapEvent::FileNamed(Err(no_path))),
            not_named,
        ),
        call_ensures(
            HeapDump::step,
            (HeapDump::Dumping(path, guard), HeapEvent::Dumped(Err(error))),
            not_dumped,
        ),
    ensures
        guard matches Some(held) ==> {
            &&& not_made == HeapDump::Abandoning(held, ProfError::IOError(cause))
            &&& not_named == HeapDump::Abandoning(held, ProfError::PathError(no_path))
            &&& not_dumped == HeapDump::Abandoning(held, error)
        },
        guard is None ==> {
            &&& not_made == HeapDump::Done(Err(ProfError::IOError(cause)))
            &&& not_named == HeapDump::Done(Err(ProfError::PathError(no_path)))
            &&& not_dumped == HeapDump::Done(Err(error))
        },
{
}

/// A heap profile that was given up ends with its error once the lock is given back.
pub proof fn law_abandoned_heap_profiles_keep_their_error(
    guard: ProfGuard,
    error: ProfError,
    done: HeapDump,
)
    requires
        call_ensures(
            HeapDump::step,
            (HeapDump::Abandoning(guard, error), HeapEvent::Released),
            done,
        ),
    ensures
        done == HeapDump::Done(Err(error)),
{
}

/// What a heap profile does not wait for changes nothing, and once it is done nothing does.
pub proof fn law_heap_profiles_take_one_thing_at_a_time(
    dump: HeapDump,
    event: HeapEvent,
    next: HeapDump,
)
    requires
        call_ensures(HeapDump::step, (dump, event), next),
    ensures
        dump is Activating && !(event is Activated) ==> next == dump,
        dump is Locking && !(event is Locked) ==> next == dump,
        dump is Waiting && !(event is Waited) ==> next == dump,
        dump is MakingDir && !(event is DirMade) ==> next == dump,
        dump is NamingFile && !(event is FileNamed) ==> next == dump,
        dump is Dumping && !(event is Dumped) ==> next == dump,
        dump is Releasing && !(event is Released) ==> next == dump,
        dump is Abandoning && !(event is Released) ==> next == dump,
        dump is Reading && !(event is ReadBack) ==> next == dump,
        dump is Done ==> next == dump,
{
}

/// The lock is wanted exactly if profiling was started, and held exactly if it was given.
pub proof fn law_locks_are_held_if_given(
    activated: Result<(), ProfError>,
    lock: Result<ProfLock, ProfError>,
    given: bool,
    guard: Option<ProfGuard>,
)
    requires
        call_ensures(ProfLock::new, (activated,), lock),
        call_ensures(ProfLock::poll, (ProfLock, given), guard),
    ensures
        activated is Ok ==> lock is Ok,
        activated matches Err(e) ==> lock == Err::<ProfLock, ProfError>(e),
        guard is Some <==> given,
{
}

} // verus!
