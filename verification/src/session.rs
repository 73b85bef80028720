//! A session: one child process, the stream to it, and the searches that
//! wait for what the child prints.

use vstd::prelude::*;
use vstd::string::StringSliceAdditionalSpecFns;
use vstd::slice::{slice_subrange, slice_to_vec};
use crate::control_code::{ControlCode, ToControl};
use crate::error::{other_io_error, Error};
use crate::found::{right_most, right_most_within, within, Found, Match};
use crate::interval::Interval;
use crate::needle::{
    lasting, literal_record_covers_literal, literal_search, nbytes_right_most, reports, NBytes,
    Needle,
};
use crate::stream::{read_bytes, ReadOutcome, Stream, TryReadAction, TryReadEvent};

verus! {

/// How far one `expect` has come: the number of bytes of the retention
/// buffer that were offered to the needle, and whether the stream has ended.
#[derive(Debug, Clone, Copy, PartialEq, Eq, Structural)]
pub struct Expectation {
    pub offered: usize,
    pub eof: bool,
}

impl Expectation {
    /// The start of an `expect`: nothing offered, the stream not ended.
    pub fn new() -> (r: Expectation)
        ensures
            r == (Expectation { offered: 0, eof: false }),
    {
        Expectation { offered: 0, eof: false }
    }
}

/// What happened since the last step of an `expect`.
#[derive(Debug)]
pub enum ExpectEvent {
    /// Nothing: the `expect` begins, or goes on.
    Resume,
    /// The non-blocking read of one byte that was asked for came to this.
    Read(ReadOutcome),
    /// The clock that was asked for: the time since the `expect` began.
    Clock(Interval),
}

/// What an `expect` needs next.
#[derive(Debug)]
pub enum ExpectAction {
    /// One non-blocking read of one byte.
    Read,
    /// The time since the `expect` began.
    Clock,
    /// Nothing: this is its result.
    Done(Result<Found, Error>),
}

/// Whether the stream has ended, after `event`: a read says so anew.
pub open spec fn eof_after(eof: bool, event: ExpectEvent) -> bool {
    match event {
        ExpectEvent::Read(outcome) => outcome matches ReadOutcome::Data(bytes) && bytes@.len() == 0,
        _ => eof,
    }
}

/// Whether `event` is a clock reading beyond `timeout`.
pub open spec fn expired(timeout: Option<Interval>, event: ExpectEvent) -> bool {
    &&& event matches ExpectEvent::Clock(elapsed)
    &&& timeout matches Some(limit)
    &&& elapsed.total_nanos() > limit.total_nanos()
}

/// The error of the read that `event` reports, where it reports one.
pub open spec fn failure(event: ExpectEvent) -> Option<std::io::Error> {
    match event {
        ExpectEvent::Read(ReadOutcome::Failed(e)) => Some(e),
        _ => None,
    }
}

/// The number of bytes offered next: one more, as long as there is one.
pub open spec fn next_offer(offered: int, len: int) -> int {
    if offered < len {
        offered + 1
    } else {
        len
    }
}

/// The default time that an `expect` waits: ten seconds.
pub open spec fn default_timeout() -> Interval {
    Interval { secs: 10, nanos: 0 }
}

/// What `is_matched` answers on a stream that was drained into `buffer`:
/// whether the needle reports a record, `Eof` where it reports none and the
/// stream has ended, and the needle's error.
pub open spec fn answer<N: Needle>(needle: &N, buffer: Seq<u8>, eof: bool) -> Result<bool, Error> {
    match needle.search(buffer, eof) {
        Err(error) => Err(error),
        Ok(records) => if records.len() > 0 {
            Ok(true)
        } else if eof {
            Err(Error::Eof)
        } else {
            Ok(false)
        },
    }
}

/// Of two calls of `is_matched` with one needle the second is true where the
/// first was: nothing leaves the retention buffer in between, so the second
/// call sees the buffer of the first with more bytes behind it. This holds of
/// a needle whose findings last, such as a literal or a count of bytes.
pub proof fn answer_stays_true<N: Needle>(
    needle: &N,
    buffer: Seq<u8>,
    more: Seq<u8>,
    eof: bool,
    later: bool,
)
    requires
        lasting(needle),
        answer(needle, buffer, eof) == Ok::<bool, Error>(true),
    ensures
        answer(needle, buffer + more, later) == Ok::<bool, Error>(true),
{
    assert(reports(needle, buffer, eof));
    assert(reports(needle, buffer + more, later));
}

/// A match of `NBytes(n)` takes exactly `n` bytes from the stream.
pub proof fn nbytes_takes_n(needle: &NBytes, offered: Seq<u8>, eof: bool, found: Found)
    requires
        reports(needle, offered, eof),
        found.records() == needle.search(offered, eof).unwrap(),
        found.bytes().len() == right_most(found.records()),
    ensures
        found.bytes().len() == needle.0,
{
    nbytes_right_most(needle, offered, eof);
}

/// In what a search for a literal returns, the first record covers bytes
/// equal to the literal: a line that was sent and comes back is found as it
/// was sent.
pub proof fn literal_found_covers_literal(offered: Seq<u8>, literal: Seq<u8>, found: Found)
    requires
        offered.len() <= usize::MAX,
        literal_search(offered, literal).len() > 0,
        found.records() == literal_search(offered, literal),
        found.bytes() == offered.take(right_most(found.records())),
    ensures
        found.records().len() == 1,
        found.bytes().subrange(found.records()[0].start as int, found.records()[0].end as int)
            == literal,
{
    literal_record_covers_literal(offered, literal);
    let record = found.records()[0];
    assert(found.records().drop_last() =~= Seq::<Match>::empty());
    assert(right_most(found.records().drop_last()) == 0);
    assert(right_most(found.records()) == record.end);
    assert(found.bytes().subrange(record.start as int, record.end as int) =~= offered.subrange(
        record.start as int,
        record.end as int,
    ));
}

/// The line feed that ends a line sent to the child.
pub const LINE_ENDING: u8 = 0x0A;

/// A child process with the stream to it.
pub struct Session<P, R, W> {
    proc: P,
    stream: Stream<R, W>,
    expect_timeout: Option<Interval>,
}

impl<P, R, W> Session<P, R, W> {
    /// The child process.
    pub closed spec fn process(&self) -> P {
        self.proc
    }

    /// The stream to the child.
    pub closed spec fn stream(&self) -> Stream<R, W> {
        self.stream
    }

    /// How long an `expect` waits; `None`: for ever.
    pub closed spec fn timeout(&self) -> Option<Interval> {
        self.expect_timeout
    }

    /// A session over a child that was spawned and the stream to it. An
    /// `expect` waits ten seconds.
    pub fn new(proc: P, stream: Stream<R, W>) -> (s: Self)
        ensures
            s.process() == proc,
            s.stream() == stream,
            s.timeout() == Some(default_timeout()),
    {
        Session { proc, stream, expect_timeout: Some(Interval::from_millis(10000)) }
    }

    /// The child process.
    pub fn get_process(&self) -> (r: &P)
        ensures
            *r == self.process(),
    {
        &self.proc
    }

    /// The child process, for whoever controls it.
    pub fn get_process_mut(&mut self) -> (r: &mut P)
        ensures
            *r == old(self).process(),
            final(self).process() == *final(r),
            final(self).stream() == old(self).stream(),
            final(self).timeout() == old(self).timeout(),
    {
        &mut self.proc
    }

    /// The stream to the child.
    pub fn get_stream(&self) -> (r: &Stream<R, W>)
        ensures
            *r == self.stream(),
    {
        &self.stream
    }

    /// The stream to the child, for whoever reads and writes.
    pub fn get_stream_mut(&mut self) -> (r: &mut Stream<R, W>)
        ensures
            *r == old(self).stream(),
            final(self).stream() == *final(r),
            final(self).process() == old(self).process(),
            final(self).timeout() == old(self).timeout(),
    {
        &mut self.stream
    }

    /// How long an `expect` waits; `None`: for ever.
    pub fn expect_timeout(&self) -> (r: Option<Interval>)
        ensures
            r == self.timeout(),
    {
        self.expect_timeout
    }

    /// One step of a non-blocking read: see [`Stream::try_read`].
    pub fn try_read(&mut self, event: TryReadEvent) -> (action: TryReadAction)
        ensures
            final(self).stream().tried(&old(self).stream(), event, action),
            final(self).process() == old(self).process(),
            final(self).timeout() == old(self).timeout(),
    {
        self.stream.try_read(event)
    }

    /// Whether the stream has nothing to read now: see [`Stream::is_empty`].
    pub fn is_empty(&self, outcome: ReadOutcome) -> (r: Result<bool, std::io::Error>)
        ensures
            r == match outcome {
                ReadOutcome::Data(bytes) => Ok::<bool, std::io::Error>(bytes@.len() == 0),
                ReadOutcome::WouldBlock => Ok(true),
                ReadOutcome::Failed(e) => Err(e),
            },
    {
        self.stream.is_empty(outcome)
    }

    /// Sets how long an `expect` waits; `None`: for ever.
    pub fn set_expect_timeout(&mut self, expect_timeout: Option<Interval>)
        ensures
            final(self).timeout() == expect_timeout,
            final(self).stream() == old(self).stream(),
            final(self).process() == old(self).process(),
    {
        self.expect_timeout = expect_timeout;
    }

    /// What `found` and the stream are after a match with `records` on
    /// `buffer`: the bytes up to the right-most index left the retention
    /// buffer and are the bytes of `found`.
    pub open spec fn took(&self, old: &Self, buffer: Seq<u8>, records: Seq<Match>, found: Found) -> bool {
        let end = right_most(records);
        &&& 0 <= end <= buffer.len()
        &&& found.records() == records
        &&& found.bytes() == buffer.take(end)
        &&& found.wf()
        &&& self.stream().available() == buffer.skip(end)
        &&& found.bytes() + self.stream().available() == buffer
        &&& self.stream().delivered() == old.stream().delivered() + found.bytes()
    }

    /// Ends one step of an `expect` on what the needle said of the first
    /// `offered` bytes of the retention buffer.
    ///
    /// An error of the needle is the result. Records are a match: the bytes
    /// up to the right-most index leave the retention buffer and are the
    /// result. No record and the stream ended: `Eof`. Else the clock is due.
    pub fn conclude(&mut self, offered: usize, eof: bool, result: Result<Vec<Match>, Error>) -> (action:
        ExpectAction)
        requires
            offered <= old(self).stream().available().len(),
            result matches Ok(records) ==> within(records@, offered as int),
        ensures
            final(self).timeout() == old(self).timeout(),
            final(self).process() == old(self).process(),
            final(self).stream().line() == old(self).stream().line(),
            final(self).stream().observed() == old(self).stream().observed(),
            final(self).stream().same_sides(&old(self).stream()),
            old(self).stream().settled() ==> final(self).stream().settled(),
            match result {
                Err(e) => {
                    &&& action == ExpectAction::Done(Err(e))
                    &&& final(self).stream() == old(self).stream()
                },
                Ok(records) => if records@.len() > 0 {
                    &&& action matches ExpectAction::Done(Ok(found))
                    &&& right_most(records@) <= offered
                    &&& final(self).took(old(self), old(self).stream().available(), records@, found)
                } else {
                    &&& final(self).stream() == old(self).stream()
                    &&& action == if eof {
                        ExpectAction::Done(Err(Error::Eof))
                    } else {
                        ExpectAction::Clock
                    }
                },
            },
    {
        match result {
            Err(e) => ExpectAction::Done(Err(e)),
            Ok(records) => {
                if records.len() > 0 {
                    let end = Found::right_most_index(records.as_slice());
                    proof {
                        right_most_within(records@, offered as int);
                    }
                    let taken = slice_to_vec(slice_subrange(self.stream.get_available(), 0, end));
                    self.stream.consume_from_buffer(end);
                    proof {
                        let buffer = old(self).stream().available();
                        assert(taken@ == buffer.take(end as int));
                        assert(buffer.take(end as int) + buffer.skip(end as int) =~= buffer);
                    }
                    ExpectAction::Done(Ok(Found::new(taken, records)))
                } else if eof {
                    ExpectAction::Done(Err(Error::Eof))
                } else {
                    ExpectAction::Clock
                }
            },
        }
    }

    /// One step of waiting until `needle` matches.
    ///
    /// The needle is offered a prefix of the retention buffer that grows by
    /// one byte with every step, so the match that is returned is the first
    /// prefix on which the needle reports anything. `progress` starts as
    /// [`Expectation::new`] and is handed back to every step; `event` says
    /// what came of the action that the step before asked for, `Resume` at the
    /// start.
    ///
    /// - A clock reading beyond the timeout ends the wait with `ExpectTimeout`.
    /// - A read that failed ends it with that error.
    /// - Where nothing was read and every byte of the buffer has been offered,
    ///   a read is due.
    /// - Else the needle is asked, with the flag that the last read set, and
    ///   the step ends as [`Session::conclude`] says.
    pub fn expect<N: Needle>(
        &mut self,
        needle: &N,
        progress: &mut Expectation,
        event: ExpectEvent,
    ) -> (action: ExpectAction)
        ensures
            final(self).timeout() == old(self).timeout(),
            final(self).process() == old(self).process(),
            final(self).stream().same_sides(&old(self).stream()),
            old(self).stream().settled() ==> final(self).stream().settled(),
            old(self).stream().observed().is_prefix_of(final(self).stream().observed()),
            old(self).stream().delivered().is_prefix_of(final(self).stream().delivered()),
            action matches ExpectAction::Done(Ok(found)) ==> {
                &&& found.wf()
                &&& found.records().len() > 0
                &&& found.bytes().len() == right_most(found.records())
                &&& final(self).stream().delivered() == old(self).stream().delivered()
                    + found.bytes()
            },
            !(action matches ExpectAction::Done(Ok(_))) ==> final(self).stream().delivered()
                == old(self).stream().delivered(),
            ({
                let before = old(self).stream();
                let after = final(self).stream();
                if expired(old(self).timeout(), event) {
                    &&& action == ExpectAction::Done(Err(Error::ExpectTimeout))
                    &&& after == before
                    &&& *final(progress) == *old(progress)
                } else if failure(event) is Some {
                    &&& action == ExpectAction::Done(Err(Error::IO(failure(event).unwrap())))
                    &&& after.took_in(&before, ReadOutcome::Failed(failure(event).unwrap()))
                } else if !(event is Read) && old(progress).offered >= before.available().len() {
                    &&& action is Read
                    &&& after == before
                    &&& *final(progress) == *old(progress)
                } else {
                    let buffer = match event {
                        ExpectEvent::Read(outcome) => before.available() + before.line() + read_bytes(
                            outcome,
                        ),
                        _ => before.available(),
                    };
                    let offered = next_offer(old(progress).offered as int, buffer.len() as int);
                    let eof = eof_after(old(progress).eof, event);
                    &&& final(progress).offered == offered
                    &&& final(progress).eof == eof
                    &&& event matches ExpectEvent::Read(outcome) ==> after.observed()
                        == before.observed() + read_bytes(outcome) && after.line().len() == 0
                    &&& !(event is Read) ==> after.observed() == before.observed() && after.line()
                        == before.line()
                    &&& match needle.search(buffer.take(offered), eof) {
                        Err(error) => action == ExpectAction::Done(Err(error)) && after.available()
                            == buffer,
                        Ok(records) => if records.len() > 0 {
                            &&& action matches ExpectAction::Done(Ok(found))
                            &&& found.records() == records
                            &&& 0 <= right_most(records) <= offered
                            &&& found.bytes() == buffer.take(right_most(records))
                            &&& after.available() == buffer.skip(right_most(records))
                            &&& found.bytes() + after.available() == buffer
                        } else {
                            &&& after.available() == buffer
                            &&& action == if eof {
                                ExpectAction::Done(Err(Error::Eof))
                            } else {
                                ExpectAction::Clock
                            }
                        },
                    }
                }
            }),
    {
        match event {
            ExpectEvent::Clock(elapsed) => {
                if let Some(limit) = self.expect_timeout {
                    if elapsed.longer_than(&limit) {
                        return ExpectAction::Done(Err(Error::ExpectTimeout));
                    }
                }
                if progress.offered >= self.stream.get_available().len() {
                    return ExpectAction::Read;
                }
            },
            ExpectEvent::Resume => {
                if progress.offered >= self.stream.get_available().len() {
                    return ExpectAction::Read;
                }
            },
            ExpectEvent::Read(outcome) => {
                proof {
                    assert(outcome matches ReadOutcome::Data(bytes) ==> bytes@.len() == bytes.len());
                }
                match self.stream.read_available_once(outcome) {
                    Ok(n) => {
                        progress.eof = match n {
                            Some(count) => count == 0,
                            None => false,
                        };
                    },
                    Err(e) => {
                        return ExpectAction::Done(Err(Error::IO(e)));
                    },
                }
            },
        }
        let available = self.stream.get_available();
        if progress.offered < available.len() {
            progress.offered = progress.offered + 1;
        } else {
            progress.offered = available.len();
        }
        let offered = progress.offered;
        let eof = progress.eof;
        let result = needle.check(slice_subrange(available, 0, offered), eof);
        proof {
            assert(available@.subrange(0, offered as int) == available@.take(offered as int));
        }
        self.conclude(offered, eof, result)
    }

    /// The result of `is_matched` on what the needle said of the whole
    /// retention buffer: whether there is a record; `Eof` where there is none
    /// and the stream has ended; the needle's error.
    pub fn matched(eof: bool, result: Result<Vec<Match>, Error>) -> (r: Result<bool, Error>)
        ensures
            r == match result {
                Err(e) => Err::<bool, Error>(e),
                Ok(records) => if records@.len() > 0 {
                    Ok(true)
                } else if eof {
                    Err(Error::Eof)
                } else {
                    Ok(false)
                },
            },
    {
        match result {
            Err(e) => Err(e),
            Ok(records) => if records.len() > 0 {
                Ok(true)
            } else if eof {
                Err(Error::Eof)
            } else {
                Ok(false)
            },
        }
    }

    /// One step of a search that does not wait: every byte that can be read
    /// without blocking is taken in, then the needle is asked once, about the
    /// whole retention buffer.
    ///
    /// `outcome` is that of a non-blocking read of up to
    /// [`READ_CHUNK`](crate::stream::READ_CHUNK) bytes. Returns `None` where
    /// it brought bytes: the next read is due. Else the result: what a match
    /// took from the stream, nothing where the needle has not matched, `Eof`
    /// where it has not and the stream has ended, or the error.
    pub fn check<N: Needle>(&mut self, needle: &N, outcome: ReadOutcome) -> (r: Option<
        Result<Found, Error>,
    >)
        ensures
            final(self).timeout() == old(self).timeout(),
            final(self).process() == old(self).process(),
            final(self).stream().same_sides(&old(self).stream()),
            final(self).stream().line().len() == 0,
            final(self).stream().observed() == old(self).stream().observed() + read_bytes(outcome),
            old(self).stream().in_order() && old(self).stream().flushable() ==> final(self).stream().settled(),
            r matches Some(Ok(found)) ==> {
                &&& found.wf()
                &&& found.bytes().len() == right_most(found.records())
                &&& final(self).stream().delivered() == old(self).stream().delivered()
                    + found.bytes()
            },
            !(r matches Some(Ok(_))) ==> final(self).stream().delivered()
                == old(self).stream().delivered(),
            ({
                let before = old(self).stream();
                let after = final(self).stream();
                let buffer = before.available() + before.line() + read_bytes(outcome);
                match outcome {
                    ReadOutcome::Failed(e) => r == Some(Err::<Found, Error>(Error::IO(e)))
                        && after.available() == buffer,
                    ReadOutcome::Data(bytes) if bytes@.len() > 0 => r is None && after.available()
                        == buffer,
                    _ => {
                        let eof = outcome is Data;
                        match needle.search(buffer, eof) {
                            Err(error) => r == Some(Err::<Found, Error>(error)) && after.available()
                                == buffer,
                            Ok(records) => if records.len() > 0 {
                                &&& r matches Some(Ok(found))
                                &&& found.records() == records
                                &&& 0 <= right_most(records) <= buffer.len()
                                &&& found.bytes() == buffer.take(right_most(records))
                                &&& after.available() == buffer.skip(right_most(records))
                                &&& found.bytes() + after.available() == buffer
                            } else if eof {
                                r == Some(Err::<Found, Error>(Error::Eof)) && after.available()
                                    == buffer
                            } else {
                                &&& r matches Some(Ok(found))
                                &&& found.records().len() == 0
                                &&& found.bytes().len() == 0
                                &&& after.available() == buffer
                            },
                        }
                    },
                }
            }),
    {
        let eof = match self.stream.read_available(outcome) {
            None => {
                return None;
            },
            Some(Err(e)) => {
                return Some(Err(Error::IO(e)));
            },
            Some(Ok(eof)) => eof,
        };
        let available = self.stream.get_available();
        let len = available.len();
        let result = needle.check(available, eof);
        match self.conclude(len, eof, result) {
            ExpectAction::Done(result) => Some(result),
            _ => Some(Ok(Found::new(Vec::new(), Vec::new()))),
        }
    }

    /// One step of asking whether `needle` matches what can be read without
    /// blocking. Nothing leaves the retention buffer.
    ///
    /// `outcome` is that of a non-blocking read of up to
    /// [`READ_CHUNK`](crate::stream::READ_CHUNK) bytes. Returns `None` where
    /// it brought bytes: the next read is due. Else whether the needle
    /// reports a record on the whole retention buffer, `Eof` where it does
    /// not and the stream has ended, or the error.
    pub fn is_matched<N: Needle>(&mut self, needle: &N, outcome: ReadOutcome) -> (r: Option<
        Result<bool, Error>,
    >)
        ensures
            final(self).timeout() == old(self).timeout(),
            final(self).process() == old(self).process(),
            final(self).stream().took_in(&old(self).stream(), outcome),
            r == match outcome {
                ReadOutcome::Failed(e) => Some(Err::<bool, Error>(Error::IO(e))),
                ReadOutcome::Data(bytes) if bytes@.len() > 0 => None,
                _ => Some(answer(needle, final(self).stream().available(), outcome is Data)),
            },
    {
        let eof = match self.stream.read_available(outcome) {
            None => {
                return None;
            },
            Some(Err(e)) => {
                return Some(Err(Error::IO(e)));
            },
            Some(Ok(eof)) => eof,
        };
        let result = needle.check(self.stream.get_available(), eof);
        Some(Self::matched(eof, result))
    }

    /// The bytes to write to the child for the text `s`: its UTF-8 form.
    pub fn send(&self, s: &str) -> (bytes: Vec<u8>)
        ensures
            bytes@ == s.spec_bytes(),
    {
        s.as_bytes_vec()
    }

    /// The slices to write to the child, in one vectored write, for the line
    /// `s`: the text, the line feed, and an empty slice, which keeps a write
    /// that stops short of the last slice from stopping short of the line
    /// feed. A flush follows the write.
    pub fn send_line(&self, s: &str) -> (slices: Vec<Vec<u8>>)
        ensures
            slices@.len() == 3,
            slices@[0]@ == s.spec_bytes(),
            slices@[1]@ == seq![LINE_ENDING],
            slices@[2]@ == Seq::<u8>::empty(),
            slices@[0]@ + slices@[1]@ + slices@[2]@ == s.spec_bytes().push(LINE_ENDING),
    {
        let mut ending: Vec<u8> = Vec::new();
        ending.push(LINE_ENDING);
        let mut slices: Vec<Vec<u8>> = Vec::new();
        slices.push(s.as_bytes_vec());
        slices.push(ending);
        slices.push(Vec::new());
        proof {
            assert(slices@[0]@ + slices@[1]@ + slices@[2]@ =~= s.spec_bytes().push(LINE_ENDING));
        }
        slices
    }

    /// The byte to write to the child for a control code: for the code itself,
    /// for the letter that names it (`'C'` for Ctrl-C) or for its written form
    /// (`"^C"`). What names no control code is an error.
    pub fn send_control<C: ToControl>(&self, code: C) -> (byte: Result<u8, std::io::Error>)
        ensures
            match code.named() {
                Ok(code) => byte == Ok::<u8, std::io::Error>(code.code()),
                Err(_) => byte is Err,
            },
    {
        match code.to_control() {
            Ok(code) => Ok(code.to_byte()),
            Err(_) => Err(other_io_error("Failed to parse a control character")),
        }
    }
}

} // verus!
