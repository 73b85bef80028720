//! The byte stream between the library and the child: what has been read
//! from the descriptor and not yet handed out, and the rules for reading more.
//!
//! Nothing here touches a descriptor. The owner of the descriptor reads and
//! changes its mode, and reports each outcome as a [`ReadOutcome`] or a
//! [`TryReadEvent`].

use vstd::prelude::*;
use vstd::slice::slice_to_vec;

verus! {

/// What one read on the descriptor came to.
#[derive(Debug)]
pub enum ReadOutcome {
    /// The read returned these bytes; none means that the stream has ended.
    Data(Vec<u8>),
    /// The descriptor is in non-blocking mode and has nothing to read now.
    WouldBlock,
    /// The read failed for any other reason.
    Failed(std::io::Error),
}

/// What polling the reader for more bytes came to.
#[derive(Debug)]
pub enum Polled {
    /// The reader returned these bytes.
    Ready(Vec<u8>),
    /// The reader failed.
    Failed(std::io::Error),
    /// The reader has nothing yet and will wake the task.
    Pending,
}

/// Takes the first `n` bytes out of `buf`.
fn take_front(buf: &mut Vec<u8>, n: usize) -> (head: Vec<u8>)
    requires
        n <= old(buf)@.len(),
    ensures
        head@ == old(buf)@.take(n as int),
        final(buf)@ == old(buf)@.skip(n as int),
{
    let mut rest = buf.split_off(n);
    std::mem::swap(buf, &mut rest);
    rest
}

/// Puts `v` behind what `buf` holds.
fn put_back(buf: &mut Vec<u8>, v: &[u8])
    ensures
        final(buf)@ == old(buf)@ + v@,
{
    let mut copy = slice_to_vec(v);
    buf.append(&mut copy);
}

/// A reader with the retention buffer in front of it: the bytes that were
/// read from the reader and not yet handed out.
#[derive(Debug)]
pub struct ReaderWithBuffer<R> {
    inner: R,
    buffer: Vec<u8>,
}

impl<R> ReaderWithBuffer<R> {
    /// The retention buffer, oldest byte first.
    pub closed spec fn view(&self) -> Seq<u8> {
        self.buffer@
    }

    /// The reader behind the buffer.
    pub closed spec fn inner(&self) -> R {
        self.inner
    }

    pub fn new(reader: R) -> (r: Self)
        ensures
            r@ == Seq::<u8>::empty(),
            r.inner() == reader,
    {
        ReaderWithBuffer { inner: reader, buffer: Vec::new() }
    }

    /// Appends `v` to the retention buffer.
    pub fn keep_in_buffer(&mut self, v: &[u8])
        ensures
            final(self)@ == old(self)@ + v@,
            final(self).inner() == old(self).inner(),
    {
        put_back(&mut self.buffer, v);
    }

    /// The reader itself, for whoever performs the reads.
    pub fn get_mut(&mut self) -> (r: &mut R)
        ensures
            *r == old(self).inner(),
            final(self).inner() == *final(r),
            final(self)@ == old(self)@,
    {
        &mut self.inner
    }

    /// The retention buffer.
    pub fn buffer(&self) -> (r: &[u8])
        ensures
            r@ == self@,
    {
        self.buffer.as_slice()
    }

    /// The number of bytes in the retention buffer.
    pub fn len(&self) -> (r: usize)
        ensures
            r == self@.len(),
    {
        self.buffer.len()
    }

    /// Drops the first `n` bytes of the retention buffer and returns them.
    pub fn drain(&mut self, n: usize) -> (head: Vec<u8>)
        requires
            n <= old(self)@.len(),
        ensures
            head@ == old(self)@.take(n as int),
            final(self)@ == old(self)@.skip(n as int),
            final(self).inner() == old(self).inner(),
    {
        take_front(&mut self.buffer, n)
    }

    /// Ends a cooperative read of which the retention buffer served
    /// `served` and for the rest of which the reader was polled.
    ///
    /// Where the buffer served nothing, the read is what the reader came to.
    /// Else the read is ready with what the buffer served, followed by what
    /// the reader brought, if it brought anything: once bytes have left the
    /// buffer the read never stays pending and never fails, so that no byte
    /// is lost. An error of the reader is dropped in favour of what was
    /// served; the reader reports it again at the next read.
    pub fn poll_read(served: Option<Vec<u8>>, inner: Polled) -> (r: Polled)
        ensures
            match served {
                None => r == inner,
                Some(bytes) => match inner {
                    Polled::Ready(more) => r matches Polled::Ready(all) && all@ == bytes@ + more@,
                    Polled::Failed(_) => r == Polled::Ready(bytes),
                    Polled::Pending => r == Polled::Ready(bytes),
                },
            },
            served matches Some(bytes) ==> r matches Polled::Ready(all) && bytes@.is_prefix_of(all@),
    {
        match served {
            None => inner,
            Some(bytes) => match inner {
                Polled::Ready(more) => {
                    let mut all = bytes;
                    let mut rest = more;
                    all.append(&mut rest);
                    Polled::Ready(all)
                },
                Polled::Failed(_) => Polled::Ready(bytes),
                Polled::Pending => Polled::Ready(bytes),
            },
        }
    }

    /// Serves a read of at most `max` bytes from the retention buffer.
    /// Returns `None` where the buffer is empty: the read then goes to the
    /// reader itself.
    pub fn read(&mut self, max: usize) -> (served: Option<Vec<u8>>)
        ensures
            final(self).inner() == old(self).inner(),
            old(self)@.len() == 0 ==> served is None && final(self)@ == old(self)@,
            old(self)@.len() > 0 ==> {
                let n = if max <= old(self)@.len() { max as int } else { old(self)@.len() as int };
                &&& served matches Some(bytes)
                &&& bytes@ == old(self)@.take(n)
                &&& final(self)@ == old(self)@.skip(n)
            },
    {
        if self.buffer.len() == 0 {
            return None;
        }
        let n = if max <= self.buffer.len() { max } else { self.buffer.len() };
        Some(take_front(&mut self.buffer, n))
    }
}

/// The number of bytes asked for in one read while draining the descriptor.
pub const READ_CHUNK: usize = 248;

/// The two sides of the pseudo-terminal with what lies between the
/// descriptor and the caller: the line buffer of the reading side and, behind
/// it, the retention buffer.
pub struct Stream<R, W> {
    input: W,
    line: Vec<u8>,
    output: ReaderWithBuffer<R>,
    nonblocking: bool,
    held: Option<ReadOutcome>,
    want: usize,
    observed: Ghost<Seq<u8>>,
    delivered: Ghost<Seq<u8>>,
}

impl<R, W> Stream<R, W> {
    /// The retention buffer: what was read and not yet handed out.
    pub closed spec fn available(&self) -> Seq<u8> {
        self.output@
    }

    /// The line buffer of the reading side.
    pub closed spec fn line(&self) -> Seq<u8> {
        self.line@
    }

    /// The writing side.
    pub closed spec fn input(&self) -> W {
        self.input
    }

    /// The reading side.
    pub closed spec fn output(&self) -> R {
        self.output.inner()
    }

    /// Whether the descriptor was last put into non-blocking mode.
    pub closed spec fn nonblocking(&self) -> bool {
        self.nonblocking
    }

    /// The outcome of the read of a non-blocking read in progress, kept while
    /// the descriptor is put back into blocking mode.
    pub closed spec fn held(&self) -> Option<ReadOutcome> {
        self.held
    }

    /// The number of bytes that the non-blocking read in progress asks for.
    pub closed spec fn want(&self) -> usize {
        self.want
    }

    /// Every byte that the stream took in as read from the descriptor, in
    /// order. A read that goes straight to the caller, because nothing is
    /// pending, passes the stream by and is not counted, here or in
    /// [`Stream::delivered`].
    pub closed spec fn observed(&self) -> Seq<u8> {
        self.observed@
    }

    /// Every byte that left the buffers for the caller, in order.
    pub closed spec fn delivered(&self) -> Seq<u8> {
        self.delivered@
    }

    /// What was read and not yet handed out, in the order in which it will be
    /// handed out: the line buffer, then the retention buffer.
    pub open spec fn pending(&self) -> Seq<u8> {
        self.line() + self.available()
    }

    /// Nothing was lost or reordered: what was handed out, followed by what is
    /// pending, is what was read from the descriptor.
    pub open spec fn in_order(&self) -> bool {
        self.observed() == self.delivered() + self.pending()
    }

    /// Nothing was lost or reordered, and the line buffer is empty: every
    /// pending byte is in the retention buffer.
    pub open spec fn settled(&self) -> bool {
        self.in_order() && self.line().len() == 0
    }

    /// Moving the line buffer behind the retention buffer changes nothing.
    pub open spec fn flushable(&self) -> bool {
        self.line() + self.available() == self.available() + self.line()
    }

    /// What was handed out so far is the beginning of what was read from the
    /// descriptor: as long as the stream is in order, the bytes that
    /// successive searches and reads returned, one after another, are a prefix
    /// of the byte stream.
    pub proof fn delivered_is_prefix(&self)
        requires
            self.in_order(),
        ensures
            self.delivered().is_prefix_of(self.observed()),
            self.observed() == self.delivered() + self.pending(),
    {
        assert((self.delivered() + self.pending()).subrange(0, self.delivered().len() as int)
            =~= self.delivered());
    }

    /// Everything but the buffers and the history is as in `old`.
    pub open spec fn same_sides(&self, old: &Self) -> bool {
        &&& self.input() == old.input()
        &&& self.output() == old.output()
        &&& self.nonblocking() == old.nonblocking()
        &&& self.held() == old.held()
        &&& self.want() == old.want()
    }

    /// A stream over the two sides of the pseudo-terminal, with nothing read.
    pub fn new(input: W, output: R) -> (s: Self)
        ensures
            s.input() == input,
            s.output() == output,
            s.available() == Seq::<u8>::empty(),
            s.line() == Seq::<u8>::empty(),
            s.observed() == Seq::<u8>::empty(),
            s.delivered() == Seq::<u8>::empty(),
            !s.nonblocking(),
            s.held() is None,
            s.in_order(),
    {
        Stream {
            input,
            line: Vec::new(),
            output: ReaderWithBuffer::new(output),
            nonblocking: false,
            held: None,
            want: 0,
            observed: Ghost(Seq::empty()),
            delivered: Ghost(Seq::empty()),
        }
    }

    /// Whether the descriptor was last put into non-blocking mode.
    pub fn is_nonblocking(&self) -> (r: bool)
        ensures
            r == self.nonblocking(),
    {
        self.nonblocking
    }

    /// The writing side, for whoever performs the writes.
    pub fn input_mut(&mut self) -> (r: &mut W)
        ensures
            *r == old(self).input(),
            final(self).input() == *final(r),
            final(self).output() == old(self).output(),
            final(self).available() == old(self).available(),
            final(self).line() == old(self).line(),
            final(self).observed() == old(self).observed(),
            final(self).delivered() == old(self).delivered(),
            final(self).nonblocking() == old(self).nonblocking(),
            final(self).held() == old(self).held(),
            final(self).want() == old(self).want(),
    {
        &mut self.input
    }

    /// The reading side, for whoever performs the reads.
    pub fn output_mut(&mut self) -> (r: &mut R)
        ensures
            *r == old(self).output(),
            final(self).output() == *final(r),
            final(self).input() == old(self).input(),
            final(self).available() == old(self).available(),
            final(self).line() == old(self).line(),
            final(self).observed() == old(self).observed(),
            final(self).delivered() == old(self).delivered(),
            final(self).nonblocking() == old(self).nonblocking(),
            final(self).held() == old(self).held(),
            final(self).want() == old(self).want(),
    {
        self.output.get_mut()
    }

    /// The retention buffer.
    pub fn get_available(&self) -> (r: &[u8])
        ensures
            r@ == self.available(),
    {
        self.output.buffer()
    }

    /// Drops the first `n` bytes of the retention buffer: they count as
    /// handed out.
    pub fn consume_from_buffer(&mut self, n: usize)
        requires
            n <= old(self).available().len(),
        ensures
            final(self).available() == old(self).available().skip(n as int),
            final(self).delivered() == old(self).delivered() + old(self).available().take(n as int),
            final(self).line() == old(self).line(),
            final(self).observed() == old(self).observed(),
            final(self).same_sides(old(self)),
            old(self).in_order() && old(self).line().len() == 0 ==> final(self).in_order(),
    {
        let ghost head = self.output@.take(n as int);
        let _ = self.output.drain(n);
        proof {
            self.delivered@ = self.delivered@ + head;
            assert(old(self).available() == head + old(self).available().skip(n as int));
            if old(self).in_order() && old(self).line().len() == 0 {
                assert(old(self).pending() =~= old(self).available());
                assert(self.pending() =~= old(self).available().skip(n as int));
                assert(self.delivered() + self.pending() =~= old(self).delivered()
                    + old(self).available());
            }
        }
    }

    /// Appends `v` to the retention buffer: it counts as read from the
    /// descriptor.
    pub fn keep_in_buffer(&mut self, v: &[u8])
        ensures
            final(self).available() == old(self).available() + v@,
            final(self).observed() == old(self).observed() + v@,
            final(self).line() == old(self).line(),
            final(self).delivered() == old(self).delivered(),
            final(self).same_sides(old(self)),
            old(self).in_order() ==> final(self).in_order(),
    {
        self.output.keep_in_buffer(v);
        proof {
            self.observed@ = self.observed@ + v@;
            if old(self).in_order() {
                assert(self.delivered() + self.pending() =~= old(self).delivered()
                    + old(self).pending() + v@);
            }
        }
    }

    /// Moves what the line buffer holds behind the retention buffer, so that
    /// a search sees every byte that was read.
    pub fn flush_in_buffer(&mut self)
        ensures
            final(self).available() == old(self).available() + old(self).line(),
            final(self).line() == Seq::<u8>::empty(),
            final(self).observed() == old(self).observed(),
            final(self).delivered() == old(self).delivered(),
            final(self).same_sides(old(self)),
            old(self).in_order() && old(self).flushable() ==> final(self).in_order(),
    {
        let mut moved: Vec<u8> = Vec::new();
        std::mem::swap(&mut self.line, &mut moved);
        self.output.keep_in_buffer(moved.as_slice());
        proof {
            assert(self.pending() =~= old(self).available() + old(self).line());
        }
    }
}

/// The bytes that a read brought: none unless it returned data.
pub open spec fn read_bytes(outcome: ReadOutcome) -> Seq<u8> {
    match outcome {
        ReadOutcome::Data(bytes) => bytes@,
        _ => Seq::<u8>::empty(),
    }
}

impl<R, W> Stream<R, W> {
    /// The buffers and the history after the line buffer was flushed and
    /// `outcome` taken in.
    pub open spec fn took_in(&self, old: &Self, outcome: ReadOutcome) -> bool {
        &&& self.available() == old.available() + old.line() + read_bytes(outcome)
        &&& self.line() == Seq::<u8>::empty()
        &&& self.observed() == old.observed() + read_bytes(outcome)
        &&& self.delivered() == old.delivered()
        &&& self.same_sides(old)
        &&& old.in_order() && old.flushable() ==> self.in_order()
    }

    /// Takes in the outcome of one non-blocking read: the bytes it brought
    /// are kept in the retention buffer, behind what the line buffer held.
    /// Returns the number of bytes read, `None` where the read would have
    /// blocked, and the error where it failed.
    pub fn read_available_once(&mut self, outcome: ReadOutcome) -> (r: Result<
        Option<usize>,
        std::io::Error,
    >)
        ensures
            final(self).took_in(old(self), outcome),
            r == match outcome {
                ReadOutcome::Data(bytes) => Ok::<Option<usize>, std::io::Error>(Some(bytes@.len() as usize)),
                ReadOutcome::WouldBlock => Ok(None),
                ReadOutcome::Failed(e) => Err(e),
            },
    {
        self.flush_in_buffer();
        match outcome {
            ReadOutcome::Data(bytes) => {
                let n = bytes.len();
                self.keep_in_buffer(bytes.as_slice());
                Ok(Some(n))
            },
            ReadOutcome::WouldBlock => {
                proof {
                    assert(self.available() =~= old(self).available() + old(self).line()
                        + read_bytes(outcome));
                    assert(self.observed() =~= old(self).observed() + read_bytes(outcome));
                }
                Ok(None)
            },
            ReadOutcome::Failed(e) => {
                proof {
                    assert(self.available() =~= old(self).available() + old(self).line()
                        + read_bytes(outcome));
                    assert(self.observed() =~= old(self).observed() + read_bytes(outcome));
                }
                Err(e)
            },
        }
    }

    /// Takes in the outcome of one non-blocking read of a run that drains the
    /// descriptor. Returns `None` where the read brought bytes and the next
    /// read is due; else whether the stream has ended, or the error.
    pub fn read_available(&mut self, outcome: ReadOutcome) -> (r: Option<
        Result<bool, std::io::Error>,
    >)
        ensures
            final(self).took_in(old(self), outcome),
            r == match outcome {
                ReadOutcome::Data(bytes) => if bytes@.len() == 0 {
                    Some(Ok::<bool, std::io::Error>(true))
                } else {
                    None
                },
                ReadOutcome::WouldBlock => Some(Ok(false)),
                ReadOutcome::Failed(e) => Some(Err(e)),
            },
    {
        proof {
            assert(outcome matches ReadOutcome::Data(bytes) ==> bytes@.len() == bytes.len());
        }
        match self.read_available_once(outcome) {
            Ok(Some(n)) => if n == 0 {
                Some(Ok(true))
            } else {
                None
            },
            Ok(None) => Some(Ok(false)),
            Err(e) => Some(Err(e)),
        }
    }

    /// Whether the stream has nothing to read now, from the outcome of a
    /// non-blocking read into an empty buffer.
    pub fn is_empty(&self, outcome: ReadOutcome) -> (r: Result<bool, std::io::Error>)
        ensures
            r == match outcome {
                ReadOutcome::Data(bytes) => Ok::<bool, std::io::Error>(bytes@.len() == 0),
                ReadOutcome::WouldBlock => Ok(true),
                ReadOutcome::Failed(e) => Err(e),
            },
    {
        match outcome {
            ReadOutcome::Data(bytes) => Ok(bytes.len() == 0),
            ReadOutcome::WouldBlock => Ok(true),
            ReadOutcome::Failed(e) => Err(e),
        }
    }
}

/// What happened since the last step of a non-blocking read.
#[derive(Debug)]
pub enum TryReadEvent {
    /// Nothing: a read of at most that many bytes begins.
    Begin(usize),
    /// The change of the descriptor's mode that was asked for was made.
    ModeSet,
    /// The change of the descriptor's mode that was asked for failed.
    ModeFailed(std::io::Error),
    /// The read that was asked for came to this.
    Read(ReadOutcome),
}

/// What a non-blocking read needs next.
#[derive(Debug)]
pub enum TryReadAction {
    /// The descriptor put into non-blocking mode.
    SetNonBlocking,
    /// The descriptor put back into blocking mode.
    SetBlocking,
    /// One read of at most that many bytes from the descriptor.
    Read(usize),
    /// Nothing: this is what the read came to.
    Done(ReadOutcome),
}

/// The number of bytes of `buffer` that a read of at most `max` bytes takes:
/// `max`, or all that there are.
pub open spec fn served_len(buffer: Seq<u8>, max: usize) -> int {
    if max <= buffer.len() {
        max as int
    } else {
        buffer.len() as int
    }
}

impl<R, W> Stream<R, W> {
    /// What a read of at most `max` bytes is served from what is pending: the
    /// beginning of the line buffer, or where that is empty the beginning of
    /// the retention buffer.
    pub open spec fn first_served(&self, max: usize) -> Seq<u8> {
        if self.line().len() > 0 {
            self.line().take(served_len(self.line(), max))
        } else {
            self.available().take(served_len(self.available(), max))
        }
    }

    /// The two buffers after a read of at most `max` bytes was served from
    /// what was pending in `old`: the buffer that served it has lost its
    /// beginning, and the other is as it was.
    pub open spec fn served_from(&self, old: &Self, max: usize) -> bool {
        if old.line().len() > 0 {
            &&& self.line() == old.line().skip(served_len(old.line(), max))
            &&& self.available() == old.available()
        } else {
            &&& self.line() == old.line()
            &&& self.available() == old.available().skip(served_len(old.available(), max))
        }
    }

    /// The buffers and the history are as in `old`.
    pub open spec fn same_bytes(&self, old: &Self) -> bool {
        &&& self.available() == old.available()
        &&& self.line() == old.line()
        &&& self.observed() == old.observed()
        &&& self.delivered() == old.delivered()
        &&& self.input() == old.input()
        &&& self.output() == old.output()
    }

    /// Serves a read of at most `max` bytes from what is pending: from the
    /// line buffer, and where that is empty from the retention buffer. What
    /// is served counts as handed out. Returns `None` where nothing is
    /// pending: the read then goes to the descriptor.
    pub fn read(&mut self, max: usize) -> (served: Option<Vec<u8>>)
        ensures
            final(self).same_sides(old(self)),
            final(self).observed() == old(self).observed(),
            old(self).in_order() ==> final(self).in_order(),
            old(self).pending().len() == 0 ==> served is None && final(self).same_bytes(old(self)),
            old(self).pending().len() > 0 ==> {
                &&& served matches Some(bytes)
                &&& bytes@ == old(self).first_served(max)
                &&& final(self).delivered() == old(self).delivered() + bytes@
                &&& final(self).pending() == old(self).pending().skip(bytes@.len() as int)
            },
            final(self).served_from(old(self), max),
    {
        if self.line.len() > 0 {
            let n = if max <= self.line.len() { max } else { self.line.len() };
            let bytes = take_front(&mut self.line, n);
            proof {
                self.delivered@ = self.delivered@ + bytes@;
                assert(old(self).line() == bytes@ + self.line());
                assert(self.pending() =~= old(self).pending().skip(n as int));
                if old(self).in_order() {
                    assert(self.delivered() + self.pending() =~= old(self).delivered()
                        + old(self).pending());
                }
            }
            Some(bytes)
        } else {
            match self.output.read(max) {
                Some(bytes) => {
                    proof {
                        self.delivered@ = self.delivered@ + bytes@;
                        assert(old(self).available() == bytes@ + self.available());
                        assert(old(self).pending() =~= old(self).available());
                        assert(self.pending() =~= self.available());
                        if old(self).in_order() {
                            assert(self.delivered() + self.pending() =~= old(self).delivered() + old(self).pending());
                        }
                    }
                    Some(bytes)
                },
                None => {
                    proof {
                        assert(old(self).available().skip(served_len(old(self).available(), max))
                            =~= old(self).available());
                    }
                    None
                },
            }
        }
    }

    /// One step of a non-blocking read, `buffered` or straight from the
    /// descriptor.
    fn try_read_step(&mut self, event: TryReadEvent, buffered: bool) -> (action: TryReadAction)
        ensures
            final(self).stepped(old(self), event, action),
            old(self).in_order() ==> final(self).in_order(),
            !buffered || old(self).pending().len() == 0 || !(event is ModeSet) || old(self).held() is Some
                ==> final(self).same_bytes(old(self)) && (event is ModeSet && old(self).held() is None
                ==> action == TryReadAction::Read(old(self).want())),
            buffered && old(self).pending().len() > 0 && event is ModeSet && old(self).held() is None
                ==> {
                &&& action is SetBlocking
                &&& final(self).held() matches Some(ReadOutcome::Data(bytes))
                &&& final(self).observed() == old(self).observed()
                &&& final(self).delivered() == old(self).delivered() + bytes@
                &&& bytes@ == old(self).first_served(old(self).want())
                &&& final(self).pending() == old(self).pending().skip(bytes@.len() as int)
                &&& final(self).served_from(old(self), old(self).want())
            },
    {
        match event {
            TryReadEvent::Begin(max) => {
                self.want = max;
                self.held = None;
                TryReadAction::SetNonBlocking
            },
            TryReadEvent::ModeFailed(e) => {
                self.held = None;
                TryReadAction::Done(ReadOutcome::Failed(e))
            },
            TryReadEvent::Read(outcome) => {
                self.held = Some(outcome);
                TryReadAction::SetBlocking
            },
            TryReadEvent::ModeSet => {
                let mut held: Option<ReadOutcome> = None;
                std::mem::swap(&mut self.held, &mut held);
                match held {
                    Some(outcome) => {
                        self.nonblocking = false;
                        TryReadAction::Done(outcome)
                    },
                    None => {
                        self.nonblocking = true;
                        if buffered {
                            let want = self.want;
                            match self.read(want) {
                                Some(bytes) => {
                                    self.held = Some(ReadOutcome::Data(bytes));
                                    return TryReadAction::SetBlocking;
                                },
                                None => {},
                            }
                        }
                        TryReadAction::Read(self.want)
                    },
                }
            },
        }
    }

    /// What one step of a non-blocking read does to the mode and to what it
    /// keeps between its steps.
    ///
    /// - At the beginning the descriptor is to be put into non-blocking mode.
    /// - Once it is, the read is due.
    /// - Whatever the read came to is kept, and the descriptor is to be put
    ///   back into blocking mode.
    /// - Once it is, the read ends with what was kept.
    /// - A change of mode that failed ends the read with that error, and the
    ///   mode is what it was.
    pub open spec fn stepped(&self, old: &Self, event: TryReadEvent, action: TryReadAction) -> bool {
        match event {
            TryReadEvent::Begin(max) => {
                &&& action is SetNonBlocking
                &&& self.want() == max
                &&& self.held() is None
                &&& self.nonblocking() == old.nonblocking()
            },
            TryReadEvent::ModeFailed(e) => {
                &&& action == TryReadAction::Done(ReadOutcome::Failed(e))
                &&& self.held() is None
                &&& self.nonblocking() == old.nonblocking()
                &&& self.want() == old.want()
            },
            TryReadEvent::Read(outcome) => {
                &&& action is SetBlocking
                &&& self.held() == Some(outcome)
                &&& self.nonblocking() == old.nonblocking()
                &&& self.want() == old.want()
            },
            TryReadEvent::ModeSet => {
                &&& self.want() == old.want()
                &&& match old.held() {
                    Some(outcome) => {
                        &&& action == TryReadAction::Done(outcome)
                        &&& self.held() is None
                        &&& !self.nonblocking()
                    },
                    None => {
                        &&& self.nonblocking()
                        &&& action is Read || action is SetBlocking
                        &&& action is Read ==> self.held() is None
                    },
                }
            },
        }
    }

    /// One step of a non-blocking read straight from the descriptor, past
    /// the buffers: the descriptor is put into non-blocking mode, read once,
    /// and put back into blocking mode whatever the read came to.
    pub fn try_read_inner(&mut self, event: TryReadEvent) -> (action: TryReadAction)
        ensures
            final(self).stepped(old(self), event, action),
            final(self).same_bytes(old(self)),
            event is ModeSet && old(self).held() is None ==> action == TryReadAction::Read(
                old(self).want(),
            ),
            action is Done && !(event is ModeFailed) ==> !final(self).nonblocking(),
    {
        self.try_read_step(event, false)
    }

    /// One step of a non-blocking read: as [`Stream::try_read_inner`], but
    /// what is pending is served first, as [`Stream::read`] does, and the
    /// descriptor is read only where nothing is pending.
    pub fn try_read(&mut self, event: TryReadEvent) -> (action: TryReadAction)
        ensures
            final(self).tried(old(self), event, action),
    {
        self.try_read_step(event, true)
    }

    /// What one step of [`Stream::try_read`] does: the mode and what is kept
    /// go as in every non-blocking read; once the descriptor is in
    /// non-blocking mode, what is pending is served in place of a read, and
    /// counts as handed out; nothing else touches the buffers.
    pub open spec fn tried(&self, old: &Self, event: TryReadEvent, action: TryReadAction) -> bool {
        &&& self.stepped(old, event, action)
        &&& action is Done && !(event is ModeFailed) ==> !self.nonblocking()
        &&& old.in_order() ==> self.in_order()
        &&& !(event is ModeSet && old.held() is None && old.pending().len() > 0) ==> self.same_bytes(old)
        &&& event is ModeSet && old.held() is None ==> if old.pending().len() > 0 {
            &&& action is SetBlocking
            &&& self.held() matches Some(ReadOutcome::Data(bytes))
            &&& bytes@ == old.first_served(old.want())
            &&& self.pending() == old.pending().skip(bytes@.len() as int)
            &&& self.served_from(old, old.want())
            &&& self.delivered() == old.delivered() + bytes@
            &&& self.observed() == old.observed()
        } else {
            action == TryReadAction::Read(old.want())
        }
    }
}

/// A non-blocking read whose changes of mode succeed ends with what the read
/// came to and leaves the descriptor in blocking mode, as it found it.
pub proof fn try_read_restores_mode<R, W>(
    start: Stream<R, W>,
    entering: Stream<R, W>,
    reading: Stream<R, W>,
    leaving: Stream<R, W>,
    end: Stream<R, W>,
    max: usize,
    outcome: ReadOutcome,
    first: TryReadAction,
    second: TryReadAction,
    third: TryReadAction,
    last: TryReadAction,
)
    requires
        !start.nonblocking(),
        entering.stepped(&start, TryReadEvent::Begin(max), first),
        reading.stepped(&entering, TryReadEvent::ModeSet, second),
        second is Read,
        leaving.stepped(&reading, TryReadEvent::Read(outcome), third),
        end.stepped(&leaving, TryReadEvent::ModeSet, last),
    ensures
        first is SetNonBlocking,
        reading.nonblocking(),
        third is SetBlocking,
        last == TryReadAction::Done(outcome),
        end.nonblocking() == start.nonblocking(),
{
}

/// A non-blocking read that is served from what is pending reads nothing
/// from the descriptor, ends with what was served, and leaves the descriptor
/// in blocking mode, as it found it.
pub proof fn try_read_from_buffers_restores_mode<R, W>(
    start: Stream<R, W>,
    entering: Stream<R, W>,
    leaving: Stream<R, W>,
    end: Stream<R, W>,
    max: usize,
    first: TryReadAction,
    second: TryReadAction,
    last: TryReadAction,
)
    requires
        !start.nonblocking(),
        entering.pending().len() > 0,
        entering.tried(&start, TryReadEvent::Begin(max), first),
        leaving.tried(&entering, TryReadEvent::ModeSet, second),
        end.tried(&leaving, TryReadEvent::ModeSet, last),
    ensures
        first is SetNonBlocking,
        second is SetBlocking,
        last matches TryReadAction::Done(ReadOutcome::Data(bytes)) && bytes@ == entering.first_served(
            max,
        ),
        end.nonblocking() == start.nonblocking(),
{
}

/// A non-blocking read that cannot enter non-blocking mode ends with that
/// error, reads nothing, and leaves the mode as it found it.
pub proof fn try_read_keeps_mode_on_failure<R, W>(
    start: Stream<R, W>,
    entering: Stream<R, W>,
    end: Stream<R, W>,
    max: usize,
    error: std::io::Error,
    first: TryReadAction,
    last: TryReadAction,
)
    requires
        entering.stepped(&start, TryReadEvent::Begin(max), first),
        end.stepped(&entering, TryReadEvent::ModeFailed(error), last),
    ensures
        last == TryReadAction::Done(ReadOutcome::Failed(error)),
        end.nonblocking() == start.nonblocking(),
{
}

/// The pieces, one after another.
pub open spec fn joined(pieces: Seq<Seq<u8>>) -> Seq<u8>
    decreases pieces.len(),
{
    if pieces.len() == 0 {
        Seq::<u8>::empty()
    } else {
        joined(pieces.drop_last()) + pieces.last()
    }
}

/// Whatever a run of searches returned, piece by piece, is the beginning of
/// the byte stream that was read from the descriptor.
///
/// `states` are the streams before the first search, between the searches
/// and after the last; `returned` is what each search took, nothing where it
/// failed. The stream starts with nothing handed out and stays in order, as
/// every search leaves it that found the line buffer empty.
pub proof fn returned_bytes_are_a_prefix<R, W>(states: Seq<Stream<R, W>>, returned: Seq<Seq<u8>>)
    requires
        states.len() == returned.len() + 1,
        states[0].delivered().len() == 0,
        states.last().in_order(),
        forall|i: int|
            0 <= i < returned.len() ==> (#[trigger] states[i + 1]).delivered() == states[i].delivered()
                + returned[i],
    ensures
        states.last().delivered() == joined(returned),
        joined(returned).is_prefix_of(states.last().observed()),
{
    delivered_is_joined(states, returned);
    states.last().delivered_is_prefix();
}

/// What a stream that began with nothing handed out has handed out is what
/// its searches returned, piece by piece.
proof fn delivered_is_joined<R, W>(states: Seq<Stream<R, W>>, returned: Seq<Seq<u8>>)
    requires
        states.len() == returned.len() + 1,
        states[0].delivered().len() == 0,
        forall|i: int|
            0 <= i < returned.len() ==> (#[trigger] states[i + 1]).delivered() == states[i].delivered()
                + returned[i],
    ensures
        states.last().delivered() == joined(returned),
    decreases returned.len(),
{
    if returned.len() == 0 {
        assert(states.last() == states[0]);
        assert(states[0].delivered() =~= joined(returned));
    } else {
        let n = returned.len() as int;
        let earlier = states.drop_last();
        assert(earlier.last() == states[n - 1]);
        assert(states.last() == states[n]);
        assert forall|i: int| 0 <= i < n - 1 implies (#[trigger] earlier[i + 1]).delivered()
            == earlier[i].delivered() + returned.drop_last()[i] by {
            assert(earlier[i + 1] == states[i + 1]);
            assert(earlier[i] == states[i]);
        }
        delivered_is_joined(earlier, returned.drop_last());
        assert(states[n].delivered() == states[n - 1].delivered() + returned[n - 1]);
    }
}

/// The number of bytes that the line buffer takes in at once.
pub const LINE_CAPACITY: usize = 8192;

impl<R, W> Stream<R, W> {
    /// The line buffer.
    pub fn buffer(&self) -> (r: &[u8])
        ensures
            r@ == self.line(),
    {
        self.line.as_slice()
    }

    /// Makes sure that the line buffer holds something, where anything is
    /// pending: an empty line buffer takes the beginning of the retention
    /// buffer, at most [`LINE_CAPACITY`] bytes. Returns whether the line
    /// buffer holds something now; where it does not, a read from the
    /// descriptor is due, for [`Stream::fill_from`].
    pub fn fill_buf(&mut self) -> (filled: bool)
        ensures
            final(self).same_sides(old(self)),
            final(self).observed() == old(self).observed(),
            final(self).delivered() == old(self).delivered(),
            final(self).pending() == old(self).pending(),
            old(self).in_order() ==> final(self).in_order(),
            filled == (old(self).pending().len() > 0),
            filled == (final(self).line().len() > 0),
            old(self).line().len() > 0 ==> final(self).line() == old(self).line()
                && final(self).available() == old(self).available(),
            old(self).line().len() == 0 ==> {
                let n = served_len(old(self).available(), LINE_CAPACITY);
                &&& final(self).line() == old(self).available().take(n)
                &&& final(self).available() == old(self).available().skip(n)
            },
    {
        if self.line.len() > 0 {
            return true;
        }
        match self.output.read(LINE_CAPACITY) {
            Some(bytes) => {
                self.line = bytes;
                proof {
                    assert(self.line() + self.available() =~= old(self).available());
                    assert(old(self).pending() =~= old(self).available());
                }
                true
            },
            None => {
                proof {
                    assert(self.line() =~= old(self).available().take(0));
                    assert(self.available() =~= old(self).available().skip(0));
                }
                false
            },
        }
    }

    /// Puts bytes that were read from the descriptor behind what the line
    /// buffer holds.
    pub fn fill_from(&mut self, bytes: &[u8])
        ensures
            final(self).same_sides(old(self)),
            final(self).line() == old(self).line() + bytes@,
            final(self).available() == old(self).available(),
            final(self).observed() == old(self).observed() + bytes@,
            final(self).delivered() == old(self).delivered(),
            old(self).in_order() && old(self).available().len() == 0 ==> final(self).in_order(),
    {
        put_back(&mut self.line, bytes);
        proof {
            self.observed@ = self.observed@ + bytes@;
            if old(self).in_order() && old(self).available().len() == 0 {
                assert(self.delivered() + self.pending() =~= old(self).delivered() + old(self).pending() + bytes@);
            }
        }
    }

    /// Drops the first `amt` bytes of the line buffer, all of it where it
    /// holds fewer: they count as handed out.
    pub fn consume(&mut self, amt: usize)
        ensures
            final(self).same_sides(old(self)),
            final(self).available() == old(self).available(),
            final(self).observed() == old(self).observed(),
            old(self).in_order() ==> final(self).in_order(),
            ({
                let n = served_len(old(self).line(), amt);
                &&& final(self).line() == old(self).line().skip(n)
                &&& final(self).delivered() == old(self).delivered() + old(self).line().take(n)
            }),
    {
        let n = if amt <= self.line.len() { amt } else { self.line.len() };
        let head = take_front(&mut self.line, n);
        proof {
            self.delivered@ = self.delivered@ + head@;
            assert(old(self).line() == head@ + self.line());
            if old(self).in_order() {
                assert(self.delivered() + self.pending() =~= old(self).delivered() + old(self).pending());
            }
        }
    }
}

/// The offset of the first `byte` in `bytes`.
fn position(bytes: &[u8], byte: u8) -> (at: Option<usize>)
    ensures
        match at {
            Some(i) => i < bytes@.len() && bytes@[i as int] == byte && forall|j: int|
                0 <= j < i ==> bytes@[j] != byte,
            None => forall|j: int| 0 <= j < bytes@.len() ==> bytes@[j] != byte,
        },
{
    let mut i: usize = 0;
    while i < bytes.len()
        invariant
            i <= bytes@.len(),
            forall|j: int| 0 <= j < i ==> bytes@[j] != byte,
        decreases bytes@.len() - i,
    {
        if bytes[i] == byte {
            return Some(i);
        }
        i += 1;
    }
    None
}

impl<R, W> Stream<R, W> {
    /// Moves what is pending behind `out`, up to the first `delim` and with
    /// it. Returns the number of bytes moved and whether the delimiter was
    /// among them; where it was not, everything pending was moved, and the
    /// line goes on with what the descriptor brings next.
    pub fn read_until(&mut self, delim: u8, out: &mut Vec<u8>) -> (r: (usize, bool))
        ensures
            final(self).same_sides(old(self)),
            final(self).observed() == old(self).observed(),
            old(self).in_order() ==> final(self).in_order(),
            ({
                let moved = old(self).pending().take(r.0 as int);
                &&& r.0 <= old(self).pending().len()
                &&& final(out)@ == old(out)@ + moved
                &&& final(self).pending() == old(self).pending().skip(r.0 as int)
                &&& final(self).delivered() == old(self).delivered() + moved
                &&& forall|j: int| 0 <= j < r.0 - 1 ==> old(self).pending()[j] != delim
                &&& r.1 ==> r.0 > 0 && old(self).pending()[r.0 - 1] == delim
                &&& !r.1 ==> r.0 == old(self).pending().len() && (r.0 > 0 ==> old(self).pending()[r.0 - 1] != delim)
            }),
    {
        let mut count: usize = 0;
        let mut done = false;
        let ghost start = self.pending();
        proof {
            assert(old(out)@ + start.take(0) =~= old(out)@);
            assert(start.skip(0) =~= start);
            assert(old(self).delivered() + start.take(0) =~= old(self).delivered());
        }
        loop
            invariant_except_break
                !done,
            invariant
                self.same_sides(old(self)),
                self.observed() == old(self).observed(),
                start == old(self).pending(),
                count <= start.len(),
                out@ == old(out)@ + start.take(count as int),
                self.pending() == start.skip(count as int),
                self.delivered() == old(self).delivered() + start.take(count as int),
                forall|j: int| 0 <= j < count - 1 ==> start[j] != delim,
                !done ==> (count > 0 ==> start[count - 1] != delim),
            ensures
                done ==> count > 0 && start[count - 1] == delim,
                !done ==> count == start.len(),
            decreases self.pending().len(),
        {
            let ghost before = self.pending();
            if !self.fill_buf() {
                break;
            }
            let len = self.line.len();
            let (n, found) = match position(self.line.as_slice(), delim) {
                Some(i) => (i + 1, true),
                None => (len, false),
            };
            let ghost line = self.line();
            let mut head = take_front(&mut self.line, n);
            proof {
                self.delivered@ = self.delivered@ + head@;
                let rest = self.pending();
                assert(before =~= head@ + rest);
                assert(before.len() == start.len() - count);
                assert(n <= before.len());
                assert forall|j: int| 0 <= j < before.len() implies before[j] == start[count + j] by {
                    assert(start.skip(count as int)[j] == start[count + j]);
                }
                assert forall|j: int| 0 <= j < n implies head@[j] == start[count + j] by {
                    assert(head@[j] == line[j]);
                    assert(before[j] == line[j]);
                }
                assert(start.take(count + n) =~= start.take(count as int) + head@);
                assert forall|j: int| 0 <= j < rest.len() implies rest[j] == start[count + n + j] by {
                    assert(before[n + j] == rest[j]);
                }
                assert(rest =~= start.skip(count + n));
                assert forall|j: int| 0 <= j < count + n - 1 implies start[j] != delim by {
                    if j >= count {
                        assert(line[j - count] != delim);
                        assert(head@[j - count] == line[j - count]);
                    }
                }
                if found {
                    assert(line[n - 1] == delim);
                    assert(head@[n - 1] == line[n - 1]);
                    assert(start[count + n - 1] == delim);
                } else {
                    assert(line[n - 1] != delim);
                    assert(head@[n - 1] == line[n - 1]);
                    assert(start[count + n - 1] != delim);
                }
            }
            out.append(&mut head);
            proof {
                // what was moved fits in `out`, so its length fits in a `usize`
                assert(old(out)@.len() + count + n == out.len());
            }
            count = count + n;
            if found {
                done = true;
                break;
            }
        }
        proof {
            if old(self).in_order() {
                assert(self.delivered() + self.pending() =~= old(self).delivered() + start);
            }
        }
        (count, done)
    }
}

/// The stream of a cooperative scheduler: the same stream, whose owner
/// suspends the task where a read would block.
pub type AsyncStream<R, W> = Stream<R, W>;

} // verus!
