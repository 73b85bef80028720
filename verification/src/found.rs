//! Match records and the result of a successful search.

use vstd::prelude::*;
use vstd::slice::slice_subrange;

verus! {

/// A half-open range `[start, end)` of byte offsets into the searched data.
#[derive(Debug, Clone, Copy, PartialEq, Eq, Structural)]
pub struct Match {
    pub start: usize,
    pub end: usize,
}

impl Match {
    pub fn new(start: usize, end: usize) -> (m: Match)
        ensures
            m == (Match { start, end }),
    {
        Match { start, end }
    }

    pub fn start(&self) -> (r: usize)
        ensures
            r == self.start,
    {
        self.start
    }

    pub fn end(&self) -> (r: usize)
        ensures
            r == self.end,
    {
        self.end
    }
}

/// Every record is an ordered pair of offsets that lie within `len` bytes.
pub open spec fn within(records: Seq<Match>, len: int) -> bool {
    forall|i: int| 0 <= i < records.len() ==> (#[trigger] records[i]).start <= records[i].end <= len
}

/// The largest `end` among the records, 0 where there are none.
pub open spec fn right_most(records: Seq<Match>) -> int
    decreases records.len(),
{
    if records.len() == 0 {
        0
    } else {
        let rest = right_most(records.drop_last());
        if records.last().end > rest {
            records.last().end as int
        } else {
            rest
        }
    }
}

/// `right_most` is the maximum: no record ends beyond it, and where there is a
/// record at all, one of them ends exactly there.
pub proof fn right_most_is_max(records: Seq<Match>)
    ensures
        forall|i: int| 0 <= i < records.len() ==> (#[trigger] records[i]).end <= right_most(records),
        records.len() > 0 ==> exists|i: int|
            0 <= i < records.len() && (#[trigger] records[i]).end == right_most(records),
        records.len() == 0 ==> right_most(records) == 0,
        right_most(records) >= 0,
    decreases records.len(),
{
    if records.len() > 0 {
        let init = records.drop_last();
        right_most_is_max(init);
        assert forall|i: int| 0 <= i < records.len() implies (#[trigger] records[i]).end
            <= right_most(records) by {
            if i < records.len() - 1 {
                assert(init[i] == records[i]);
            }
        }
        if records.last().end > right_most(init) {
            assert(records[records.len() - 1].end == right_most(records));
        } else if init.len() > 0 {
            let j = choose|j: int| 0 <= j < init.len() && (#[trigger] init[j]).end == right_most(init);
            assert(records[j] == init[j]);
        } else {
            assert(records[records.len() - 1].end == right_most(records));
        }
    }
}

/// Records that lie within `len` bytes have their right-most index there too.
pub proof fn right_most_within(records: Seq<Match>, len: int)
    requires
        within(records, len),
        len >= 0,
    ensures
        0 <= right_most(records) <= len,
{
    right_most_is_max(records);
    if records.len() > 0 {
        let i = choose|i: int| 0 <= i < records.len() && (#[trigger] records[i]).end == right_most(records);
        assert(records[i].end <= len);
    }
}

/// The bytes a successful search took from the stream, with the records the
/// needle reported for them.
#[derive(Debug)]
pub struct Found {
    buf: Vec<u8>,
    matches: Vec<Match>,
}

impl Found {
    /// The bytes that were taken from the stream.
    pub closed spec fn bytes(&self) -> Seq<u8> {
        self.buf@
    }

    /// The records, in the order the needle reported them.
    pub closed spec fn records(&self) -> Seq<Match> {
        self.matches@
    }

    /// Every record lies within the bytes taken, and where there is a record
    /// the bytes end at the right-most index.
    pub open spec fn wf(&self) -> bool {
        &&& within(self.records(), self.bytes().len() as int)
        &&& self.records().len() > 0 ==> self.bytes().len() == right_most(self.records())
    }

    pub fn new(buf: Vec<u8>, matches: Vec<Match>) -> (found: Found)
        ensures
            found.bytes() == buf@,
            found.records() == matches@,
    {
        Found { buf, matches }
    }

    /// The largest `end` among `matches`: the number of bytes a match takes
    /// from the stream.
    pub fn right_most_index(matches: &[Match]) -> (r: usize)
        ensures
            r == right_most(matches@),
            forall|i: int| 0 <= i < matches@.len() ==> (#[trigger] matches@[i]).end <= r,
            matches@.len() > 0 ==> exists|i: int|
                0 <= i < matches@.len() && (#[trigger] matches@[i]).end == r,
            matches@.len() == 0 ==> r == 0,
    {
        let mut r: usize = 0;
        let mut i: usize = 0;
        while i < matches.len()
            invariant
                i <= matches@.len(),
                r == right_most(matches@.take(i as int)),
            decreases matches@.len() - i,
        {
            proof {
                let next = matches@.take(i as int + 1);
                assert(next.drop_last() == matches@.take(i as int));
                assert(next.last() == matches@[i as int]);
            }
            if matches[i].end > r {
                r = matches[i].end;
            }
            i += 1;
        }
        proof {
            assert(matches@.take(i as int) == matches@);
            right_most_is_max(matches@);
        }
        r
    }

    /// True where the search found nothing.
    pub fn is_empty(&self) -> (r: bool)
        ensures
            r == (self.records().len() == 0),
    {
        self.matches.len() == 0
    }

    /// The bytes that were taken from the stream.
    pub fn as_bytes(&self) -> (r: &[u8])
        ensures
            r@ == self.bytes(),
    {
        self.buf.as_slice()
    }

    /// The records, in the order the needle reported them.
    pub fn matches(&self) -> (r: &[Match])
        ensures
            r@ == self.records(),
    {
        self.matches.as_slice()
    }

    /// The bytes that the first record covers.
    pub fn first(&self) -> (r: &[u8])
        requires
            self.records().len() > 0,
            self.wf(),
        ensures
            r@ == self.bytes().subrange(self.records()[0].start as int, self.records()[0].end as int),
    {
        let m = self.matches[0];
        slice_subrange(self.buf.as_slice(), m.start, m.end)
    }

    /// The bytes that come before the first record.
    pub fn before_match(&self) -> (r: &[u8])
        requires
            self.records().len() > 0,
            self.wf(),
        ensures
            r@ == self.bytes().subrange(0, self.records()[0].start as int),
    {
        let m = self.matches[0];
        slice_subrange(self.buf.as_slice(), 0, m.start)
    }
}

} // verus!
