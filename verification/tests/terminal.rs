use crossterm_input::error::{Error, ErrorKind, Failure};
use crossterm_input::terminal::file_descriptor::{
    status, transferred, tty_fd, tty_input_fd, tty_input_path, tty_opened, FileDesc, GuardStep,
    NonblockingGuard, TtyStep, STDIN_FILENO,
};
use crossterm_input::terminal::query::{
    query_target, send_query, stdout_fd, write_query, QueryOutput, QueryTarget, WriteStep,
};
use crossterm_input::time::Nanos;

type TestError = &'static str;
type WriteResult = Result<usize, Failure<TestError>>;

const NONBLOCK: i32 = 0o4000;

/// The status flags of a descriptor that waits.
const BLOCKING: i32 = 0o2;

/// A writer with a clock and status flags of its own.
trait Writer {
    fn write(&mut self, bytes: &[u8]) -> WriteResult;
    fn flush(&mut self) -> Result<(), Failure<TestError>>;
    fn elapsed(&self) -> Nanos;
    fn pause(&mut self, pause: Nanos);
    fn flags(&mut self) -> &mut i32;
}

fn drive<W: Writer>(
    writer: &mut W,
    mut step: WriteStep<'_, TestError>,
) -> Result<(), Error<TestError>> {
    loop {
        step = match step {
            WriteStep::Done(result) => return result,
            WriteStep::GetFlags(request) => {
                let flags = *writer.flags();
                request.reply(Ok(flags), NONBLOCK, writer.elapsed())
            }
            WriteStep::SetFlags(request) => {
                *writer.flags() = request.set.flags;
                request.reply(Ok(()), writer.elapsed())
            }
            WriteStep::OpenTty(request) => request.reply(Ok(()), writer.elapsed()),
            WriteStep::Write(request) => {
                if matches!(request.output, QueryOutput::Stdout(_)) {
                    assert_ne!(*writer.flags() & NONBLOCK, 0, "the output would wait");
                }
                let written = writer.write(request.query);
                request.reply(written, writer.elapsed())
            }
            WriteStep::Flush(request) => {
                let flushed = writer.flush();
                request.reply(flushed, writer.elapsed())
            }
            WriteStep::Sleep(request) => {
                writer.pause(request.pause);
                request.reply(writer.elapsed())
            }
            WriteStep::RestoreFlags(request) => {
                *writer.flags() = request.flags;
                request.reply()
            }
        };
    }
}

fn would_block() -> Failure<TestError> {
    Failure { kind: ErrorKind::WouldBlock, error: "full" }
}

#[derive(Default)]
struct RecordingWriter {
    bytes: Vec<u8>,
    flushed: bool,
    flags: i32,
}

impl Writer for RecordingWriter {
    fn write(&mut self, bytes: &[u8]) -> WriteResult {
        self.bytes.extend_from_slice(bytes);
        Ok(bytes.len())
    }

    fn flush(&mut self) -> Result<(), Failure<TestError>> {
        self.flushed = true;
        Ok(())
    }

    fn elapsed(&self) -> Nanos {
        Nanos(0)
    }

    fn pause(&mut self, _pause: Nanos) {
        unreachable!()
    }

    fn flags(&mut self) -> &mut i32 {
        &mut self.flags
    }
}

/// Takes one byte at a time, or none, and takes its time for it.
struct SlowPartialWriter {
    writes: usize,
    flushes: usize,
    bytes: Vec<u8>,
    pauses: Vec<Nanos>,
    /// Each write and each flush is refused so many times first.
    refusals: usize,
    refused: usize,
    cost: Nanos,
    now: Nanos,
    flags: i32,
}

impl SlowPartialWriter {
    fn new(refusals: usize, cost: Nanos) -> SlowPartialWriter {
        SlowPartialWriter {
            writes: 0,
            flushes: 0,
            bytes: Vec::new(),
            pauses: Vec::new(),
            refusals,
            refused: 0,
            cost,
            now: Nanos(0),
            flags: BLOCKING,
        }
    }

    fn refuses(&mut self) -> bool {
        self.now = Nanos(self.now.0 + self.cost.0);
        if self.refused < self.refusals {
            self.refused += 1;
            return true;
        }
        self.refused = 0;
        false
    }
}

impl Writer for SlowPartialWriter {
    fn write(&mut self, bytes: &[u8]) -> WriteResult {
        self.writes += 1;
        if self.refuses() {
            return Err(would_block());
        }
        self.bytes.push(bytes[0]);
        Ok(1)
    }

    fn flush(&mut self) -> Result<(), Failure<TestError>> {
        self.flushes += 1;
        if self.refuses() {
            return Err(Failure { kind: ErrorKind::Interrupted, error: "signal" });
        }
        Ok(())
    }

    fn elapsed(&self) -> Nanos {
        self.now
    }

    fn pause(&mut self, pause: Nanos) {
        self.pauses.push(pause);
        self.now = Nanos(self.now.0 + pause.0);
    }

    fn flags(&mut self) -> &mut i32 {
        &mut self.flags
    }
}

#[test]
fn writes_and_flushes_the_complete_startup_query() {
    let mut writer = RecordingWriter::default();
    let query = b"\x1B[6n\x1B]10;?\x1B\\\x1B]11;?\x1B\\";

    let step = write_query(query, QueryOutput::DevTty, Nanos::from_secs(1), Nanos(0));
    drive(&mut writer, step).unwrap();

    assert_eq!(writer.bytes, query);
    assert!(writer.flushed);
}

#[test]
fn stops_a_partial_terminal_startup_query_when_the_deadline_expires() {
    let mut writer = SlowPartialWriter::new(0, Nanos::from_millis(10));
    let step = write_query(b"\x1B[?6n", QueryOutput::DevTty, Nanos::from_millis(1), Nanos(0));
    let err = drive(&mut writer, step).unwrap_err();

    assert_eq!(err.kind(), ErrorKind::TimedOut);
    assert_eq!(writer.writes, 1);
}

#[test]
fn terminal_startup_query_does_not_block_on_a_full_output_buffer() {
    let mut writer = SlowPartialWriter::new(usize::MAX, Nanos(0));
    let err =
        drive(&mut writer, send_query(b"\x1B[?6n", Nanos::from_millis(5), Nanos(0), true))
            .unwrap_err();

    assert_eq!(err.kind(), ErrorKind::TimedOut);
    assert_eq!(writer.flags & NONBLOCK, 0);
    assert_eq!(writer.flags, BLOCKING);
    assert!(writer.now.0 < Nanos::from_millis(100).0);
    assert_eq!(writer.now, Nanos::from_millis(5));
    assert_eq!(writer.pauses, vec![Nanos::from_millis(1); 5]);
    assert!(writer.bytes.is_empty());
}

#[test]
fn a_query_is_written_byte_by_byte_with_pauses() {
    let mut writer = SlowPartialWriter::new(2, Nanos(10));
    drive(&mut writer, send_query(b"\x1B[6n", Nanos::from_secs(1), Nanos(0), true)).unwrap();

    assert_eq!(writer.bytes, b"\x1B[6n");
    assert_eq!(writer.flags, BLOCKING);
    assert_eq!(writer.writes, 12);
    assert_eq!(writer.flushes, 3);
    assert_eq!(writer.pauses, vec![Nanos::from_millis(1); 10]);
}

#[test]
fn the_last_pause_ends_at_the_deadline() {
    let mut writer = SlowPartialWriter::new(usize::MAX, Nanos(0));
    let step = write_query(b"x", QueryOutput::DevTty, Nanos(2_300_000), Nanos(0));
    let err = drive(&mut writer, step).unwrap_err();

    assert_eq!(err, Error::QueryWriteTimeout);
    assert_eq!(writer.pauses, vec![Nanos(1_000_000), Nanos(1_000_000), Nanos(300_000)]);
}

#[test]
fn a_query_out_of_time_touches_nothing() {
    for (elapsed, stdin_is_terminal) in [(5, true), (6, true), (5, false), (6, false)] {
        let elapsed = Nanos::from_millis(elapsed);
        let step =
            send_query::<TestError>(b"x", Nanos::from_millis(5), elapsed, stdin_is_terminal);
        match step {
            WriteStep::Done(Err(error)) => {
                assert_eq!(error, Error::QueryWriteTimeout);
                assert_eq!(error.kind(), ErrorKind::TimedOut);
                assert_eq!(
                    error.message(),
                    Some("timed out while writing the terminal startup query")
                );
            }
            _ => panic!("nothing may be touched"),
        }
    }
}

#[test]
fn an_empty_query_is_flushed() {
    assert!(matches!(
        write_query::<TestError>(b"", QueryOutput::DevTty, Nanos(1), Nanos(0)),
        WriteStep::Flush(_)
    ));
    assert!(matches!(
        write_query::<TestError>(b"", QueryOutput::DevTty, Nanos(1), Nanos(1)),
        WriteStep::Done(Err(Error::QueryWriteTimeout))
    ));
}

#[test]
fn a_writer_that_takes_nothing_fails_the_query() {
    match write_query::<TestError>(b"x", QueryOutput::DevTty, Nanos(1), Nanos(0)) {
        WriteStep::Write(request) => match request.reply::<TestError>(Ok(0), Nanos(0)) {
            WriteStep::Done(Err(error)) => {
                assert_eq!(error, Error::QueryWriteZero);
                assert_eq!(error.kind(), ErrorKind::WriteZero);
                assert_eq!(error.message(), Some("failed to write the terminal startup query"));
            }
            _ => panic!("the query has to fail"),
        },
        _ => panic!("a byte has to be written"),
    }
}

#[test]
fn failures_of_the_target_are_handed_back() {
    let failure = Failure { kind: ErrorKind::Other, error: "broken" };
    match send_query::<TestError>(b"x", Nanos(9), Nanos(0), false) {
        WriteStep::OpenTty(request) => {
            assert_eq!(request.path(), b"/dev/tty");
            assert!(matches!(
                request.reply(Err(failure), Nanos(1)),
                WriteStep::Done(Err(Error::Io(f))) if f == failure
            ));
            match request.reply::<TestError>(Ok(()), Nanos(1)) {
                WriteStep::Write(request) => {
                    assert_eq!(request.output, QueryOutput::DevTty);
                    assert!(matches!(
                        request.reply(Err(failure), Nanos(1)),
                        WriteStep::Done(Err(Error::Io(f))) if f == failure
                    ));
                }
                _ => panic!("a byte has to be written"),
            }
        }
        _ => panic!("the target has to be opened"),
    }
    match write_query::<TestError>(b"", QueryOutput::DevTty, Nanos(9), Nanos(0)) {
        WriteStep::Flush(request) => assert!(matches!(
            request.reply(Err(failure), Nanos(1)),
            WriteStep::Done(Err(Error::Io(f))) if f == failure
        )),
        _ => panic!("the query has to be flushed"),
    }
}

#[test]
fn flags_of_the_standard_output_are_set_back_whatever_happens() {
    let failure = Failure { kind: ErrorKind::Other, error: "broken" };
    match send_query::<TestError>(b"x", Nanos(9), Nanos(0), true) {
        WriteStep::GetFlags(request) => {
            assert!(matches!(
                request.reply(Err(failure), NONBLOCK, Nanos(1)),
                WriteStep::Done(Err(Error::Io(f))) if f == failure
            ));
            match request.reply::<TestError>(Ok(BLOCKING), NONBLOCK, Nanos(1)) {
                WriteStep::SetFlags(request) => {
                    assert_eq!(request.set.flags, BLOCKING | NONBLOCK);
                    assert!(matches!(
                        request.reply(Err(failure), Nanos(1)),
                        WriteStep::Done(Err(Error::Io(f))) if f == failure
                    ));
                    match request.reply::<TestError>(Ok(()), Nanos(9)) {
                        WriteStep::RestoreFlags(request) => {
                            assert_eq!(request.flags, BLOCKING);
                            assert_eq!(request.result, Err(Error::QueryWriteTimeout));
                        }
                        _ => panic!("the flags have to be set back"),
                    }
                    match request.reply::<TestError>(Ok(()), Nanos(1)) {
                        WriteStep::Write(request) => {
                            match request.reply(Err(failure), Nanos(1)) {
                                WriteStep::RestoreFlags(request) => {
                                    assert_eq!(request.flags, BLOCKING);
                                    assert!(matches!(
                                        request.reply(),
                                        WriteStep::Done(Err(Error::Io(f))) if f == failure
                                    ));
                                }
                                _ => panic!("the flags have to be set back"),
                            }
                        }
                        _ => panic!("a byte has to be written"),
                    }
                }
                _ => panic!("the flag has to be set"),
            }
            match request.reply::<TestError>(Ok(BLOCKING | NONBLOCK), NONBLOCK, Nanos(1)) {
                WriteStep::Write(request) => assert!(matches!(
                    request.reply(Err(failure), Nanos(1)),
                    WriteStep::Done(Err(Error::Io(f))) if f == failure
                )),
                _ => panic!("a byte has to be written"),
            }
        }
        _ => panic!("the flags have to be asked for"),
    }
}

#[test]
fn queries_go_to_the_terminal() {
    assert_eq!(query_target(true), QueryTarget::Stdout);
    assert_eq!(query_target(false), QueryTarget::DevTty);
    assert_eq!(stdout_fd(), FileDesc::new(1, false));
}

#[test]
fn a_guard_sets_one_flag_and_restores_it() {
    let failure = Failure { kind: ErrorKind::Other, error: "broken" };
    match NonblockingGuard::new::<TestError>(Ok(0o2), NONBLOCK) {
        GuardStep::SetFlags(request) => {
            assert_eq!(request.flags, 0o4002);
            assert!(matches!(
                request.reply(Err(failure)),
                GuardStep::Failed(f) if f == failure
            ));
            match request.reply::<TestError>(Ok(())) {
                GuardStep::Ready(guard) => assert_eq!(guard.flags_to_restore(), Some(0o2)),
                _ => panic!("the guard has to be in place"),
            }
        }
        _ => panic!("the flag has to be set"),
    }
}

#[test]
fn a_guard_leaves_a_flag_that_is_set() {
    match NonblockingGuard::new::<TestError>(Ok(0o4002), NONBLOCK) {
        GuardStep::Ready(guard) => {
            assert_eq!(guard.flags_to_restore(), None);
            assert_eq!(guard.original_flags, 0o4002);
        }
        _ => panic!("the guard has to be in place"),
    }
    let failure = Failure { kind: ErrorKind::Other, error: "broken" };
    assert!(matches!(
        NonblockingGuard::new(Err(failure), NONBLOCK),
        GuardStep::Failed(f) if f == failure
    ));
}

#[test]
fn negative_results_are_failures() {
    assert_eq!(status(-1), None);
    assert_eq!(status(0o4002), Some(0o4002));
    assert_eq!(transferred(-1), None);
    assert_eq!(transferred(0), Some(0));
    assert_eq!(transferred(17), Some(17));
}

#[test]
fn the_terminal_is_the_standard_input_or_the_controlling_one() {
    match tty_fd(true) {
        TtyStep::Use(desc) => assert_eq!(desc, FileDesc::new(STDIN_FILENO, false)),
        TtyStep::Open(_) => panic!("the standard input is open"),
    }
    match tty_fd(false) {
        TtyStep::Open(path) => assert_eq!(path, b"/dev/tty"),
        TtyStep::Use(_) => panic!("the terminal has to be opened"),
    }
    let failure = Failure { kind: ErrorKind::Other, error: "no terminal" };
    assert_eq!(tty_opened::<TestError>(Ok(7)), Ok(FileDesc::new(7, true)));
    assert_eq!(tty_opened(Err(failure)), Err(Error::Io(failure)));
}

#[test]
fn input_is_read_from_a_descriptor_of_its_own() {
    assert_eq!(tty_input_path(true, Some(b"/dev/pts/3".to_vec())), Some(b"/dev/pts/3".to_vec()));
    assert_eq!(tty_input_path(true, None), None);
    assert_eq!(tty_input_path(false, None), Some(b"/dev/tty".to_vec()));

    match tty_input_fd(Some(9), true) {
        TtyStep::Use(desc) => {
            assert_eq!(desc.raw_fd(), 9);
            assert!(desc.closes_on_drop());
        }
        TtyStep::Open(_) => panic!("the terminal is open"),
    }
    assert!(matches!(tty_input_fd(None, true), TtyStep::Use(desc) if !desc.closes_on_drop()));
    assert!(matches!(tty_input_fd(None, false), TtyStep::Open(path) if path == b"/dev/tty"));
}

#[test]
fn durations_are_counted_in_nanoseconds() {
    assert_eq!(Nanos::from_secs(2), Nanos(2_000_000_000));
    assert_eq!(Nanos::from_millis(3), Nanos(3_000_000));
    assert_eq!(Nanos(5).saturating_sub(Nanos(3)), Nanos(2));
    assert_eq!(Nanos(3).saturating_sub(Nanos(5)), Nanos(0));
    assert_eq!(Nanos(5).min(Nanos(3)), Nanos(3));
    assert_eq!(Nanos(5).half(), Nanos(2));
    assert!(Nanos(0).is_zero() && !Nanos(1).is_zero());
}
