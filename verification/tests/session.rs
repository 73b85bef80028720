use std::collections::VecDeque;
use std::io;

use expectrl::{
    ControlCode, Eof, Error, ExpectAction, ExpectEvent, Expectation, Found, Interval, Match,
    NBytes, Needle, ReadOutcome, Regex, Session, Stream,
};

type Plain = Session<(), (), ()>;

fn session() -> Plain {
    Session::new((), Stream::new((), ()))
}

/// What a child prints, one byte to a read; once it is silent a read would
/// block, or finds the stream ended where the child has exited.
struct Child {
    output: VecDeque<u8>,
    exited: bool,
    reads: usize,
    clock: u64,
}

impl Child {
    fn printing(output: &[u8]) -> Child {
        Child { output: output.iter().copied().collect(), exited: false, reads: 0, clock: 0 }
    }

    fn exiting_after(output: &[u8]) -> Child {
        Child { output: output.iter().copied().collect(), exited: true, reads: 0, clock: 0 }
    }

    fn read(&mut self) -> ReadOutcome {
        self.reads += 1;
        match self.output.pop_front() {
            Some(byte) => ReadOutcome::Data(vec![byte]),
            None if self.exited => ReadOutcome::Data(Vec::new()),
            None => ReadOutcome::WouldBlock,
        }
    }

    fn read_all(&mut self) -> ReadOutcome {
        self.reads += 1;
        if self.output.is_empty() {
            if self.exited {
                ReadOutcome::Data(Vec::new())
            } else {
                ReadOutcome::WouldBlock
            }
        } else {
            ReadOutcome::Data(self.output.drain(..).collect())
        }
    }

    /// Ten milliseconds pass between two looks at the clock.
    fn elapsed(&mut self) -> Interval {
        self.clock += 10;
        Interval::from_millis(self.clock)
    }
}

fn expect<N: Needle>(session: &mut Plain, child: &mut Child, needle: N) -> Result<Found, Error> {
    let mut progress = Expectation::new();
    let mut event = ExpectEvent::Resume;
    child.clock = 0;
    for _ in 0..100_000 {
        event = match session.expect(&needle, &mut progress, event) {
            ExpectAction::Read => ExpectEvent::Read(child.read()),
            ExpectAction::Clock => ExpectEvent::Clock(child.elapsed()),
            ExpectAction::Done(result) => return result,
        };
    }
    panic!("the wait did not end");
}

fn check<N: Needle>(session: &mut Plain, child: &mut Child, needle: N) -> Result<Found, Error> {
    for _ in 0..100_000 {
        if let Some(result) = session.check(&needle, child.read_all()) {
            return result;
        }
    }
    panic!("the check did not end");
}

fn is_matched<N: Needle>(session: &mut Plain, child: &mut Child, needle: N) -> Result<bool, Error> {
    for _ in 0..100_000 {
        if let Some(result) = session.is_matched(&needle, child.read_all()) {
            return result;
        }
    }
    panic!("the check did not end");
}

fn flat(slices: Vec<Vec<u8>>) -> Vec<u8> {
    slices.into_iter().flatten().collect()
}

#[test]
fn a_new_session_waits_ten_seconds() {
    let mut s = session();
    assert_eq!(s.expect_timeout(), Some(Interval::new(10, 0)));
    s.set_expect_timeout(None);
    assert_eq!(s.expect_timeout(), None);
    s.set_expect_timeout(Some(Interval::from_millis(50)));
    assert_eq!(s.expect_timeout(), Some(Interval::new(0, 50_000_000)));
}

#[test]
fn expect_begins_with_a_read() {
    let mut s = session();
    let mut progress = Expectation::new();
    let action = s.expect(&"x", &mut progress, ExpectEvent::Resume);
    assert!(matches!(action, ExpectAction::Read));
    assert_eq!(progress, Expectation { offered: 0, eof: false });
}

#[test]
fn expect_regex_returns_the_shortest_prefix() {
    let mut s = session();
    let mut child = Child::printing(b"123\r\n");
    let found = expect(&mut s, &mut child, Regex("\\d+")).unwrap();
    assert_eq!(found.as_bytes(), b"1");
    assert_eq!(found.matches(), &[Match::new(0, 1)]);
    assert_eq!(child.reads, 1);
    assert_eq!(s.get_stream().get_available(), b"");
}

#[test]
fn check_regex_is_greedy() {
    let mut s = session();
    let mut child = Child::printing(b"123\r\n");
    let found = check(&mut s, &mut child, Regex("\\d+")).unwrap();
    assert_eq!(found.as_bytes(), b"123");
    assert_eq!(found.first(), b"123");
    assert_eq!(s.get_stream().get_available(), b"\r\n");
}

#[test]
fn check_without_a_match_returns_an_empty_found() {
    let mut s = session();
    let mut child = Child::printing(b"abc");
    let found = check(&mut s, &mut child, Regex("\\d+")).unwrap();
    assert!(found.is_empty());
    assert_eq!(found.as_bytes(), b"");
    assert_eq!(s.get_stream().get_available(), b"abc");
}

#[test]
fn check_at_the_end_of_the_stream_without_a_match_is_eof() {
    let mut s = session();
    let mut child = Child::exiting_after(b"abc");
    assert!(matches!(check(&mut s, &mut child, "xyz"), Err(Error::Eof)));
    assert_eq!(s.get_stream().get_available(), b"abc");
}

#[test]
fn check_asks_for_the_next_read_while_bytes_arrive() {
    let mut s = session();
    assert!(s.check(&"b", ReadOutcome::Data(b"ab".to_vec())).is_none());
    assert!(s.check(&"b", ReadOutcome::Data(b"ab".to_vec())).is_none());
    let found = s.check(&"b", ReadOutcome::WouldBlock).unwrap().unwrap();
    assert_eq!(found.as_bytes(), b"ab");
    assert_eq!(s.get_stream().get_available(), b"ab");
}

#[test]
fn expect_eof_on_a_child_that_exits_at_once() {
    let mut s = session();
    let mut child = Child::exiting_after(b"");
    let found = expect(&mut s, &mut child, Eof).unwrap();
    assert_eq!(found.as_bytes(), b"");
    assert_eq!(found.matches(), &[Match::new(0, 0)]);
}

#[test]
fn expect_eof_takes_everything_that_is_left() {
    let mut s = session();
    let mut child = Child::exiting_after(b"bye");
    let found = expect(&mut s, &mut child, Eof).unwrap();
    assert_eq!(found.as_bytes(), b"bye");
    assert_eq!(found.matches(), &[Match::new(0, 3)]);
    assert_eq!(s.get_stream().get_available(), b"");
}

#[test]
fn expect_on_a_silent_child_times_out() {
    let mut s = session();
    s.set_expect_timeout(Some(Interval::from_millis(50)));
    let mut child = Child::printing(b"");
    assert!(matches!(expect(&mut s, &mut child, "X"), Err(Error::ExpectTimeout)));
    // 10, 20, .. 50 ms are within the timeout, 60 ms is beyond it
    assert_eq!(child.clock, 60);
    assert!(matches!(expect(&mut s, &mut child, "X"), Err(Error::ExpectTimeout)));
}

#[test]
fn a_timeout_is_beyond_the_limit_not_at_it() {
    let mut s = session();
    s.set_expect_timeout(Some(Interval::from_millis(50)));
    let mut progress = Expectation::new();
    let at = s.expect(&"X", &mut progress, ExpectEvent::Clock(Interval::from_millis(50)));
    assert!(matches!(at, ExpectAction::Read));
    let beyond = s.expect(&"X", &mut progress, ExpectEvent::Clock(Interval::new(0, 50_000_001)));
    assert!(matches!(beyond, ExpectAction::Done(Err(Error::ExpectTimeout))));
}

#[test]
fn without_a_timeout_the_clock_never_ends_the_wait() {
    let mut s = session();
    s.set_expect_timeout(None);
    let mut progress = Expectation::new();
    let action = s.expect(&"X", &mut progress, ExpectEvent::Clock(Interval::new(u64::MAX, 0)));
    assert!(matches!(action, ExpectAction::Read));
}

#[test]
fn what_was_read_before_a_timeout_is_still_there() {
    let mut s = session();
    s.set_expect_timeout(Some(Interval::from_millis(50)));
    let mut child = Child::printing(b"Hel");
    assert!(matches!(expect(&mut s, &mut child, "Hello"), Err(Error::ExpectTimeout)));
    assert_eq!(s.get_stream().get_available(), b"Hel");
    child.output.extend(b"lo!".iter());
    let found = expect(&mut s, &mut child, "Hello").unwrap();
    assert_eq!(found.as_bytes(), b"Hello");
    assert_eq!(s.get_stream().get_available(), b"");
}

#[test]
fn expect_fails_with_eof_when_the_stream_ends_without_a_match() {
    let mut s = session();
    let mut child = Child::exiting_after(b"ab");
    assert!(matches!(expect(&mut s, &mut child, "abc"), Err(Error::Eof)));
    assert_eq!(s.get_stream().get_available(), b"ab");
}

#[test]
fn a_failed_read_ends_the_wait_with_its_error() {
    let mut s = session();
    let mut progress = Expectation::new();
    let failure = io::Error::new(io::ErrorKind::BrokenPipe, "gone");
    let action =
        s.expect(&"x", &mut progress, ExpectEvent::Read(ReadOutcome::Failed(failure)));
    match action {
        ExpectAction::Done(Err(Error::IO(e))) => assert_eq!(e.kind(), io::ErrorKind::BrokenPipe),
        other => panic!("unexpected action {:?}", other),
    }
    let failure = io::Error::new(io::ErrorKind::BrokenPipe, "gone");
    match s.check(&"x", ReadOutcome::Failed(failure)) {
        Some(Err(Error::IO(e))) => assert_eq!(e.kind(), io::ErrorKind::BrokenPipe),
        other => panic!("unexpected result {:?}", other),
    }
    let failure = io::Error::new(io::ErrorKind::BrokenPipe, "gone");
    match s.is_matched(&"x", ReadOutcome::Failed(failure)) {
        Some(Err(Error::IO(e))) => assert_eq!(e.kind(), io::ErrorKind::BrokenPipe),
        other => panic!("unexpected result {:?}", other),
    }
}

#[test]
fn an_ill_formed_regex_ends_the_wait() {
    let mut s = session();
    let mut child = Child::printing(b"abc");
    assert!(matches!(expect(&mut s, &mut child, Regex("(")), Err(Error::RegexParsing)));
    assert!(matches!(check(&mut s, &mut child, Regex("(")), Err(Error::RegexParsing)));
    assert!(matches!(is_matched(&mut s, &mut child, Regex("(")), Err(Error::RegexParsing)));
}

#[test]
fn echoed_line_is_found() {
    let mut s = session();
    let sent = flat(s.send_line("Hello World"));
    assert_eq!(sent, b"Hello World\n");
    // the terminal echoes the line with its own line ending
    let mut child = Child::printing(b"Hello World\r\n");
    let found = expect(&mut s, &mut child, "Hello World").unwrap();
    assert_eq!(found.as_bytes(), b"Hello World");
    let first = found.matches()[0];
    assert_eq!(&found.as_bytes()[first.start()..first.end()], b"Hello World");
    assert_eq!(s.get_stream().get_available(), b"");
}

#[test]
fn found_bytes_end_at_the_right_most_index() {
    let mut s = session();
    let mut child = Child::printing(b"key=value;");
    let found = expect(&mut s, &mut child, Regex("(\\w+)=(\\w+);")).unwrap();
    assert_eq!(found.as_bytes().len(), Found::right_most_index(found.matches()));
    assert_eq!(found.as_bytes(), b"key=value;");
    assert_eq!(
        found.matches(),
        &[Match::new(0, 10), Match::new(0, 3), Match::new(4, 9)]
    );
}

#[test]
fn expect_nbytes_takes_that_many_bytes() {
    let mut s = session();
    let mut child = Child::printing(b"abcdefgh");
    assert_eq!(expect(&mut s, &mut child, NBytes(3)).unwrap().as_bytes(), b"abc");
    assert_eq!(expect(&mut s, &mut child, NBytes(4)).unwrap().as_bytes(), b"defg");
    assert_eq!(expect(&mut s, &mut child, NBytes(0)).unwrap().as_bytes(), b"");
}

#[test]
fn successive_matches_are_a_prefix_of_the_stream() {
    let stream = b"one two three four";
    let mut s = session();
    let mut child = Child::printing(stream);
    let mut taken = Vec::new();
    taken.extend_from_slice(expect(&mut s, &mut child, "one").unwrap().as_bytes());
    taken.extend_from_slice(expect(&mut s, &mut child, "two").unwrap().as_bytes());
    taken.extend_from_slice(expect(&mut s, &mut child, NBytes(2)).unwrap().as_bytes());
    taken.extend_from_slice(expect(&mut s, &mut child, Regex("e+")).unwrap().as_bytes());
    assert_eq!(taken, b"one two thre");
    assert!(stream.starts_with(&taken));
}

#[test]
fn bytes_before_the_match_are_taken_with_it() {
    let mut s = session();
    let mut child = Child::printing(b"login: ok");
    let found = expect(&mut s, &mut child, "in").unwrap();
    assert_eq!(found.as_bytes(), b"login");
    assert_eq!(found.before_match(), b"log");
    assert_eq!(found.first(), b"in");
    let rest = check(&mut s, &mut child, NBytes(0)).unwrap();
    assert_eq!(rest.as_bytes(), b"");
    assert_eq!(s.get_stream().get_available(), b": ok");
}

#[test]
fn progress_beyond_the_buffer_offers_the_whole_buffer() {
    let mut s = session();
    s.get_stream_mut().keep_in_buffer(b"ab");
    let mut progress = Expectation { offered: 7, eof: false };
    let action = s.expect(&"ab", &mut progress, ExpectEvent::Read(ReadOutcome::WouldBlock));
    match action {
        ExpectAction::Done(Ok(found)) => assert_eq!(found.as_bytes(), b"ab"),
        other => panic!("unexpected action {:?}", other),
    }
    assert_eq!(progress.offered, 2);
}

#[test]
fn the_end_of_the_stream_is_told_by_the_last_read_only() {
    let mut s = session();
    let mut progress = Expectation::new();
    let ended = s.expect(&Eof, &mut progress, ExpectEvent::Read(ReadOutcome::WouldBlock));
    assert!(matches!(ended, ExpectAction::Clock));
    assert!(!progress.eof);
    let mut progress = Expectation { offered: 0, eof: true };
    let again = s.expect(&"x", &mut progress, ExpectEvent::Read(ReadOutcome::Data(vec![b'y'])));
    assert!(matches!(again, ExpectAction::Clock));
    assert_eq!(progress, Expectation { offered: 1, eof: false });
}

#[test]
fn the_needle_is_offered_bytes_that_were_read_earlier() {
    let mut s = session();
    s.get_stream_mut().keep_in_buffer(b"abc");
    let mut progress = Expectation::new();
    // nothing has to be read: the first byte is offered at once
    let first = s.expect(&"c", &mut progress, ExpectEvent::Resume);
    assert!(matches!(first, ExpectAction::Clock));
    assert_eq!(progress.offered, 1);
    let second = s.expect(&"c", &mut progress, ExpectEvent::Clock(Interval::new(0, 0)));
    assert!(matches!(second, ExpectAction::Clock));
    assert_eq!(progress.offered, 2);
    match s.expect(&"c", &mut progress, ExpectEvent::Resume) {
        ExpectAction::Done(Ok(found)) => assert_eq!(found.as_bytes(), b"abc"),
        other => panic!("unexpected action {:?}", other),
    }
}

#[test]
fn a_read_that_would_block_offers_the_same_bytes_again() {
    let mut s = session();
    s.get_stream_mut().keep_in_buffer(b"a");
    let mut progress = Expectation { offered: 1, eof: false };
    let action = s.expect(&"ab", &mut progress, ExpectEvent::Read(ReadOutcome::WouldBlock));
    assert!(matches!(action, ExpectAction::Clock));
    assert_eq!(progress, Expectation { offered: 1, eof: false });
}

#[test]
fn conclude_says_what_a_step_comes_to() {
    let mut s = session();
    s.get_stream_mut().keep_in_buffer(b"abcdef");
    assert!(matches!(s.conclude(3, false, Ok(Vec::new())), ExpectAction::Clock));
    assert!(matches!(s.conclude(3, true, Ok(Vec::new())), ExpectAction::Done(Err(Error::Eof))));
    assert!(matches!(
        s.conclude(3, false, Err(Error::RegexParsing)),
        ExpectAction::Done(Err(Error::RegexParsing))
    ));
    match s.conclude(3, false, Ok(vec![Match::new(1, 2), Match::new(0, 3)])) {
        ExpectAction::Done(Ok(found)) => {
            assert_eq!(found.as_bytes(), b"abc");
            assert_eq!(found.matches(), &[Match::new(1, 2), Match::new(0, 3)]);
        }
        other => panic!("unexpected action {:?}", other),
    }
    assert_eq!(s.get_stream().get_available(), b"def");
}

#[test]
fn is_matched_leaves_the_bytes_in_place() {
    let mut s = session();
    let mut child = Child::printing(b"123");
    assert_eq!(is_matched(&mut s, &mut child, Regex("\\d+")).unwrap(), true);
    assert_eq!(s.get_stream().get_available(), b"123");
    assert_eq!(is_matched(&mut s, &mut child, "4").unwrap(), false);
    assert_eq!(s.get_stream().get_available(), b"123");
}

#[test]
fn is_matched_at_the_end_of_the_stream() {
    let mut s = session();
    let mut child = Child::exiting_after(b"123");
    assert_eq!(is_matched(&mut s, &mut child, "23").unwrap(), true);
    assert!(matches!(is_matched(&mut s, &mut child, "4"), Err(Error::Eof)));
    assert_eq!(is_matched(&mut s, &mut child, Eof).unwrap(), true);
}

#[test]
fn is_matched_does_not_turn_false_for_a_literal() {
    let mut s = session();
    let mut child = Child::printing(b"ab");
    assert_eq!(is_matched(&mut s, &mut child, "abc").unwrap(), false);
    assert_eq!(is_matched(&mut s, &mut child, "ab").unwrap(), true);
    child.output.extend(b"cd".iter());
    assert_eq!(is_matched(&mut s, &mut child, "ab").unwrap(), true);
    assert_eq!(is_matched(&mut s, &mut child, "abc").unwrap(), true);
    assert_eq!(is_matched(&mut s, &mut child, NBytes(4)).unwrap(), true);
    child.output.extend(b"e".iter());
    assert_eq!(is_matched(&mut s, &mut child, NBytes(4)).unwrap(), true);
}

#[test]
fn matched_says_what_is_matched_answers() {
    assert_eq!(Plain::matched(false, Ok(vec![Match::new(0, 1)])).unwrap(), true);
    assert_eq!(Plain::matched(true, Ok(vec![Match::new(0, 1)])).unwrap(), true);
    assert_eq!(Plain::matched(false, Ok(Vec::new())).unwrap(), false);
    assert!(matches!(Plain::matched(true, Ok(Vec::new())), Err(Error::Eof)));
    assert!(matches!(Plain::matched(false, Err(Error::RegexParsing)), Err(Error::RegexParsing)));
}

#[test]
fn send_gives_the_bytes_of_the_text() {
    let s = session();
    assert_eq!(s.send("Hello"), b"Hello");
    assert_eq!(s.send(""), b"");
    assert_eq!(s.send("é"), [0xC3, 0xA9]);
}

#[test]
fn send_line_gives_three_slices() {
    let s = session();
    let slices = s.send_line("a");
    assert_eq!(slices, vec![b"a".to_vec(), b"\n".to_vec(), Vec::new()]);
}

#[test]
fn send_control_of_a_letter_writes_one_byte() {
    let s = session();
    assert_eq!(s.send_control('C').unwrap(), 0x03);
    assert_eq!(s.send_control(']').unwrap(), 0x1D);
    assert_eq!(s.send_control('A').unwrap(), 0x01);
    assert_eq!(s.send_control('_').unwrap(), 0x1F);
}

#[test]
fn send_control_of_the_written_form_writes_one_byte() {
    let s = session();
    assert_eq!(s.send_control("^]").unwrap(), 0x1D);
    assert_eq!(s.send_control("^C").unwrap(), 0x03);
}

#[test]
fn send_control_of_a_code_writes_its_byte() {
    let s = session();
    assert_eq!(s.send_control(ControlCode::EndOfText).unwrap(), 0x03);
    assert_eq!(s.send_control(ControlCode::Null).unwrap(), 0x00);
    assert_eq!(s.send_control(ControlCode::Delete).unwrap(), 0x7F);
}

#[test]
fn send_control_of_anything_else_is_an_error() {
    let s = session();
    let error = s.send_control('c').unwrap_err();
    assert_eq!(error.kind(), io::ErrorKind::Other);
    assert!(s.send_control('@').is_err());
    assert!(s.send_control('`').is_err());
    assert!(s.send_control("C").is_err());
    assert!(s.send_control("^c").is_err());
    assert!(s.send_control("^CC").is_err());
    assert!(s.send_control("").is_err());
}

#[test]
fn the_session_hands_out_its_parts() {
    let mut s: Session<u8, (), ()> = Session::new(7, Stream::new((), ()));
    assert_eq!(*s.get_process(), 7);
    *s.get_process_mut() = 9;
    assert_eq!(*s.get_process(), 9);
    assert_eq!(s.is_empty(ReadOutcome::WouldBlock).unwrap(), true);
}
