use std::io;

use status_server::profile::{CpuDump, CpuEvent, HeapDump, HeapEvent, ProfError, ProfGuard};
use status_server::server::StatusServer;

fn after(mut dump: HeapDump, events: Vec<HeapEvent>) -> HeapDump {
    for event in events {
        dump = dump.step(event);
    }
    dump
}

fn sampled(locked: bool) -> HeapDump {
    after(
        StatusServer::dump_prof(7),
        vec![HeapEvent::Activated(Ok(())), HeapEvent::Locked(locked)],
    )
}

fn missing() -> io::Error {
    io::Error::from(io::ErrorKind::NotFound)
}

#[test]
fn heap_profile_without_mishap() {
    let dump = StatusServer::dump_prof(7);
    assert!(matches!(dump, HeapDump::Activating(7)));
    let dump = dump.step(HeapEvent::Activated(Ok(())));
    assert!(matches!(dump, HeapDump::Locking(7, _)));
    let dump = dump.step(HeapEvent::Locked(true));
    assert!(matches!(dump, HeapDump::Waiting(7, Some(ProfGuard))));
    let dump = dump.step(HeapEvent::Waited);
    assert!(matches!(dump, HeapDump::MakingDir(Some(ProfGuard))));
    let dump = dump.step(HeapEvent::DirMade(Ok(())));
    assert!(matches!(dump, HeapDump::NamingFile(Some(ProfGuard))));
    let dump = dump.step(HeapEvent::FileNamed(Ok("p".to_string())));
    assert!(matches!(&dump, HeapDump::Dumping(path, Some(ProfGuard)) if path == "p"));
    let dump = dump.step(HeapEvent::Dumped(Ok(())));
    assert!(matches!(&dump, HeapDump::Releasing(_, path) if path == "p"));
    let dump = dump.step(HeapEvent::Released);
    assert!(matches!(&dump, HeapDump::Reading(path) if path == "p"));
    let dump = dump.step(HeapEvent::ReadBack(Ok(vec![1, 2])));
    assert!(matches!(&dump, HeapDump::Done(Ok(bytes)) if bytes == &[1, 2]));
}

#[test]
fn heap_profile_mishaps_give_the_lock_back() {
    let refused = HeapEvent::Activated(Err(ProfError::MemProfiling("off".to_string())));
    let dump = StatusServer::dump_prof(7).step(refused);
    assert!(matches!(dump, HeapDump::Done(Err(ProfError::MemProfiling(_)))));

    let dump = after(sampled(true), vec![HeapEvent::Waited, HeapEvent::DirMade(Err(missing()))]);
    assert!(matches!(dump, HeapDump::Abandoning(_, ProfError::IOError(_))));
    let dump = dump.step(HeapEvent::Released);
    assert!(matches!(dump, HeapDump::Done(Err(ProfError::IOError(_)))));

    let named = |result| vec![HeapEvent::Waited, HeapEvent::DirMade(Ok(())), HeapEvent::FileNamed(result)];
    let dump = after(sampled(true), named(Err("bad".to_string())));
    assert!(matches!(&dump, HeapDump::Abandoning(_, ProfError::PathError(path)) if path == "bad"));

    let dump = after(sampled(true), named(Ok("p".to_string())))
        .step(HeapEvent::Dumped(Err(ProfError::MemProfiling("full".to_string()))));
    assert!(matches!(dump, HeapDump::Abandoning(_, ProfError::MemProfiling(_))));

    let dump = after(sampled(true), named(Ok("p".to_string())));
    let dump = after(
        dump,
        vec![HeapEvent::Dumped(Ok(())), HeapEvent::Released, HeapEvent::ReadBack(Err(missing()))],
    );
    assert!(matches!(dump, HeapDump::Done(Err(ProfError::IOError(_)))));
}

#[test]
fn heap_profile_without_the_lock_has_nothing_to_give_back() {
    let dump = after(sampled(false), vec![HeapEvent::Waited, HeapEvent::DirMade(Err(missing()))]);
    assert!(matches!(dump, HeapDump::Done(Err(ProfError::IOError(_)))));
    let dump = after(
        sampled(false),
        vec![
            HeapEvent::Waited,
            HeapEvent::DirMade(Ok(())),
            HeapEvent::FileNamed(Ok("p".to_string())),
            HeapEvent::Dumped(Ok(())),
        ],
    );
    assert!(matches!(dump, HeapDump::Reading(_)));
}

#[test]
fn unexpected_events_change_nothing() {
    let dump = StatusServer::dump_prof(7).step(HeapEvent::Waited);
    assert!(matches!(dump, HeapDump::Activating(7)));
    let dump = StatusServer::dump_cpu_prof(7).step(CpuEvent::Waited);
    assert!(matches!(dump, CpuDump::Starting(7)));
}

#[test]
fn cpu_profiles() {
    let dump = StatusServer::dump_cpu_prof(3);
    assert!(matches!(dump, CpuDump::Starting(3)));
    let waiting = dump.step(CpuEvent::Started(true));
    assert!(matches!(waiting, CpuDump::Waiting(3)));
    let reporting = waiting.step(CpuEvent::Waited);
    assert!(matches!(reporting, CpuDump::Reporting));
    let done = reporting.step(CpuEvent::Reported(Some(vec![9])));
    assert!(matches!(&done, CpuDump::Done(Ok(bytes)) if bytes == &[9]));

    let failed = CpuDump::Reporting.step(CpuEvent::Reported(None));
    assert!(matches!(failed, CpuDump::Done(Err(ProfError::CPUProfilingReportFailed))));
    let locked = StatusServer::dump_cpu_prof(3).step(CpuEvent::Started(false));
    assert!(matches!(locked, CpuDump::Done(Err(ProfError::CpuProfilingLockFailed))));
}
