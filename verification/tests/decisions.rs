use rinkle::daemon::parse_pid;
use rinkle::daemon::probe_decision;
use rinkle::daemon::start_decision;
use rinkle::daemon::status;
use rinkle::daemon::ProbeOutcome;
use rinkle::ipc::Response;
use rinkle::monitor::stop_poll;
use rinkle::monitor::watcher_step;
use rinkle::monitor::FsEventKind;
use rinkle::monitor::StopVerdict;
use rinkle::monitor::WatchEvent;
use rinkle::monitor::WatcherEffect;
use rinkle::monitor::WatcherState;

#[test]
fn parse_pid_accepts_decimal_text() {
    assert_eq!(parse_pid(&"1234".to_string()), Some(1234));
    assert_eq!(parse_pid(&" 1234\n".to_string()), Some(1234));
    assert_eq!(parse_pid(&"+7".to_string()), Some(7));
    assert_eq!(parse_pid(&"-45".to_string()), Some(-45));
    assert_eq!(parse_pid(&"2147483647".to_string()), Some(i32::MAX));
    assert_eq!(parse_pid(&"-2147483648".to_string()), Some(i32::MIN));
}

#[test]
fn parse_pid_rejects_junk_and_overflow() {
    assert_eq!(parse_pid(&String::new()), None);
    assert_eq!(parse_pid(&"  ".to_string()), None);
    assert_eq!(parse_pid(&"12a".to_string()), None);
    assert_eq!(parse_pid(&"--5".to_string()), None);
    assert_eq!(parse_pid(&"2147483648".to_string()), None);
    assert_eq!(parse_pid(&"-2147483649".to_string()), None);
}

#[test]
fn stale_pid_file_removed_with_socket() {
    // A pid file referencing a dead process: removed on the probe, and the
    // socket file is removed with it.
    let d = probe_decision(true, Some(&"4242".to_string()), false);
    assert_eq!(d.outcome, ProbeOutcome::NotRunning);
    assert!(d.remove_pid_file);
    assert!(d.remove_socket_file);
    assert_eq!(d.remove_pid_file, d.remove_socket_file);
}

#[test]
fn live_pid_file_kept() {
    let d = probe_decision(true, Some(&"4242".to_string()), true);
    assert_eq!(d.outcome, ProbeOutcome::Running(4242));
    assert!(!d.remove_pid_file);
    assert!(!d.remove_socket_file);
    assert!(status(&d));
    assert!(!start_decision(status(&d)));
}

#[test]
fn absent_or_bad_pid_file() {
    let none = probe_decision(false, None, false);
    assert_eq!(none.outcome, ProbeOutcome::NotRunning);
    assert!(!none.remove_pid_file && !none.remove_socket_file);
    assert!(!status(&none));
    assert!(start_decision(status(&none)));

    let unreadable = probe_decision(true, None, false);
    assert_eq!(unreadable.outcome, ProbeOutcome::ReadError);
    assert!(!unreadable.remove_pid_file);

    let invalid = probe_decision(true, Some(&"not a pid".to_string()), true);
    assert_eq!(invalid.outcome, ProbeOutcome::InvalidPid);
    assert!(!invalid.remove_pid_file);
}

#[test]
fn monitor_status_needs_live_process_and_pong() {
    assert!(rinkle::monitor::status(true, &Some(Response::Pong)));
    assert!(!rinkle::monitor::status(true, &Some(Response::Okay)));
    assert!(!rinkle::monitor::status(true, &None));
    assert!(!rinkle::monitor::status(false, &Some(Response::Pong)));
}

#[test]
fn stop_poll_times_out_after_five_seconds() {
    assert_eq!(stop_poll(0, false), StopVerdict::Stopped);
    assert_eq!(stop_poll(0, true), StopVerdict::Wait);
    assert_eq!(stop_poll(4900, true), StopVerdict::Wait);
    assert_eq!(stop_poll(5000, true), StopVerdict::TimedOut);
}

#[test]
fn watcher_debounces_and_settles() {
    let st = WatcherState { pending: false };
    // A quiet window with nothing pending does nothing.
    assert_eq!(watcher_step(st, WatchEvent::Quiet), (st, WatcherEffect::Nothing));
    // A relevant event marks a pending change.
    let (st2, e) = watcher_step(st, WatchEvent::Fs(FsEventKind::Modify));
    assert!(st2.pending);
    assert_eq!(e, WatcherEffect::Nothing);
    // Irrelevant events change nothing.
    assert_eq!(watcher_step(st2, WatchEvent::Fs(FsEventKind::Other)), (st2, WatcherEffect::Nothing));
    // The quiet window settles the burst.
    let (st3, e3) = watcher_step(st2, WatchEvent::Quiet);
    assert!(!st3.pending);
    assert_eq!(e3, WatcherEffect::NoteSettled);
    // Stop and a closed channel end the watch.
    assert_eq!(watcher_step(st3, WatchEvent::StopRequested).1, WatcherEffect::Exit);
    assert_eq!(watcher_step(st3, WatchEvent::Disconnected).1, WatcherEffect::Exit);
}
