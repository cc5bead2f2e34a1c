use term_cursor::query::{
    event_accepted, query_start, query_step, raw_lflag, Action, Event, ModeMasks, QueryState,
};
use term_cursor::{Error, ParseFault, Pos};

fn masks() -> ModeMasks {
    ModeMasks { icanon: 0o2, echo: 0o10, cread: 0o200 }
}

#[test]
fn raw_word_clears_exactly_the_three_flags() {
    let m = masks();
    let lflag: u32 = 0xFFFF_FFFF;
    let raw = raw_lflag(lflag, m);
    assert_eq!(raw & (m.icanon | m.echo | m.cread), 0);
    assert_eq!(raw | m.icanon | m.echo | m.cread, lflag);
}

#[test]
fn successful_session_restores_mode() {
    let m = masks();
    let saved: u32 = 0o237;
    let (s, a) = query_start();
    assert_eq!(a, Action::ReadMode);

    let (s, a) = query_step(s, Event::Mode { lflag: saved }, m);
    assert_eq!(a, Action::SetMode { lflag: saved & !0o2 & !0o10 & !0o200 });

    let (s, a) = query_step(s, Event::Succeeded, m);
    assert_eq!(a, Action::WriteQuery);

    let (mut s, mut a) = query_step(s, Event::Succeeded, m);
    assert_eq!(a, Action::ReadByte);

    for &b in b"\x1B[2;5R" {
        assert_eq!(a, Action::ReadByte);
        let ev = Event::Byte { value: b };
        assert!(event_accepted(&s, &ev));
        let next = query_step(s, ev, m);
        s = next.0;
        a = next.1;
    }
    // The reply is complete: the very next action restores the snapshot.
    assert_eq!(a, Action::SetMode { lflag: saved });

    let (_, a) = query_step(s, Event::Succeeded, m);
    assert_eq!(a, Action::Finish { outcome: Ok(Pos::new(5, 2)) });
}

#[test]
fn malformed_reply_restores_mode_and_reports_parse_error() {
    let m = masks();
    let saved: u32 = 0o777;
    let (s, _) = query_start();
    let (s, _) = query_step(s, Event::Mode { lflag: saved }, m);
    let (s, _) = query_step(s, Event::Succeeded, m);
    let (s, _) = query_step(s, Event::Succeeded, m);
    let (s, _) = query_step(s, Event::Byte { value: 0x1B }, m);
    let (s, _) = query_step(s, Event::Byte { value: b'[' }, m);
    // A byte that is neither a digit nor `;` breaks the row expectation.
    let (s, a) = query_step(s, Event::Byte { value: b'x' }, m);
    assert_eq!(a, Action::SetMode { lflag: saved });
    let (_, a) = query_step(s, Event::Succeeded, m);
    assert_eq!(
        a,
        Action::Finish { outcome: Err(Error::ParseError(ParseFault::RowTerminator)) }
    );
}

#[test]
fn introducer_mismatch_reads_both_bytes_then_restores_mode() {
    let m = masks();
    let saved: u32 = 0o12345;
    let (s, _) = query_start();
    let (s, _) = query_step(s, Event::Mode { lflag: saved }, m);
    let (s, _) = query_step(s, Event::Succeeded, m);
    let (s, _) = query_step(s, Event::Succeeded, m);
    // The first reply byte is not ESC: the session still reads the
    // second introducer byte before judging the pair.
    let (s, a) = query_step(s, Event::Byte { value: b'q' }, m);
    assert_eq!(a, Action::ReadByte);
    let (s, a) = query_step(s, Event::Byte { value: b'[' }, m);
    // Exactly two bytes consumed; the next action restores the snapshot.
    assert_eq!(a, Action::SetMode { lflag: saved });
    let (_, a) = query_step(s, Event::Succeeded, m);
    assert_eq!(
        a,
        Action::Finish { outcome: Err(Error::ParseError(ParseFault::Introducer)) }
    );
}

#[test]
fn read_failure_restores_mode_and_reports_io_error() {
    let m = masks();
    let saved: u32 = 0o237;
    let (s, _) = query_start();
    let (s, _) = query_step(s, Event::Mode { lflag: saved }, m);
    let (s, _) = query_step(s, Event::Succeeded, m);
    let (s, _) = query_step(s, Event::Succeeded, m);
    let (s, a) = query_step(s, Event::Failed, m);
    assert_eq!(a, Action::SetMode { lflag: saved });
    let (_, a) = query_step(s, Event::Succeeded, m);
    assert_eq!(a, Action::Finish { outcome: Err(Error::IOError) });
}

#[test]
fn write_failure_restores_mode() {
    let m = masks();
    let saved: u32 = 0o237;
    let (s, _) = query_start();
    let (s, _) = query_step(s, Event::Mode { lflag: saved }, m);
    let (s, _) = query_step(s, Event::Succeeded, m);
    // The query request could not be written.
    let (s, a) = query_step(s, Event::Failed, m);
    assert_eq!(a, Action::SetMode { lflag: saved });
    let (_, a) = query_step(s, Event::Succeeded, m);
    assert_eq!(a, Action::Finish { outcome: Err(Error::IOError) });
}

#[test]
fn snapshot_failure_ends_the_session_directly() {
    let m = masks();
    let (s, _) = query_start();
    // The mode could not be read: nothing was changed, nothing to restore.
    let (s, a) = query_step(s, Event::Failed, m);
    assert_eq!(a, Action::Finish { outcome: Err(Error::IOError) });
    assert_eq!(s, QueryState::Finished { outcome: Err(Error::IOError) });
}

#[test]
fn restore_failure_reports_io_error() {
    let m = masks();
    let saved: u32 = 0o237;
    let (s, _) = query_start();
    let (s, _) = query_step(s, Event::Mode { lflag: saved }, m);
    let (s, _) = query_step(s, Event::Succeeded, m);
    let (s, _) = query_step(s, Event::Succeeded, m);
    let mut s = s;
    for &b in b"\x1B[2;5R" {
        let next = query_step(s, Event::Byte { value: b }, m);
        s = next.0;
    }
    // Even a fully parsed position is overridden when the restore fails.
    let (_, a) = query_step(s, Event::Failed, m);
    assert_eq!(a, Action::Finish { outcome: Err(Error::IOError) });
}

#[test]
fn finished_session_accepts_nothing() {
    let m = masks();
    let (s, _) = query_start();
    let (s, _) = query_step(s, Event::Failed, m);
    assert!(!event_accepted(&s, &Event::Succeeded));
    assert!(!event_accepted(&s, &Event::Failed));
    assert!(!event_accepted(&s, &Event::Byte { value: 0 }));
    assert!(!event_accepted(&s, &Event::Mode { lflag: 0 }));
}

#[test]
fn states_reject_mismatched_events() {
    let (s, _) = query_start();
    assert!(event_accepted(&s, &Event::Mode { lflag: 7 }));
    assert!(event_accepted(&s, &Event::Failed));
    assert!(!event_accepted(&s, &Event::Succeeded));
    assert!(!event_accepted(&s, &Event::Byte { value: 0 }));
}
