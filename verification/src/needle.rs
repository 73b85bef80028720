//! Needles: the patterns that are searched for in the bytes a child printed.

use vstd::prelude::*;
use vstd::string::StringSliceAdditionalSpecFns;
use crate::error::Error;
use crate::found::{within, Match};
use crate::pattern::{captures, regex_captures, regex_compiles};

verus! {

/// A pattern. What it reports is a function of the bytes offered and of the
/// end-of-file flag alone.
pub trait Needle {
    /// The records the needle reports for `data` and `eof`: none where it has
    /// not matched yet. An error where the needle cannot be evaluated at all.
    spec fn search(&self, data: Seq<u8>, eof: bool) -> Result<Seq<Match>, Error>;

    /// Asks the needle about `data`, the bytes seen so far, and `eof`, whether
    /// the stream has ended.
    fn check(&self, data: &[u8], eof: bool) -> (r: Result<Vec<Match>, Error>)
        ensures
            r matches Ok(records) ==> self.search(data@, eof) == Ok::<Seq<Match>, Error>(records@)
                && within(records@, data@.len() as int),
            r matches Err(error) ==> self.search(data@, eof) == Err::<Seq<Match>, Error>(error),
    ;
}

/// Matches once the stream has ended, and then covers everything that is left.
#[derive(Debug, Clone, Copy, PartialEq, Eq, Structural)]
pub struct Eof;

impl Needle for Eof {
    open spec fn search(&self, data: Seq<u8>, eof: bool) -> Result<Seq<Match>, Error> {
        if eof {
            Ok(seq![Match { start: 0, end: data.len() as usize }])
        } else {
            Ok(seq![])
        }
    }

    fn check(&self, data: &[u8], eof: bool) -> (r: Result<Vec<Match>, Error>)
        ensures
            r is Ok,
    {
        let mut records: Vec<Match> = Vec::new();
        if eof {
            records.push(Match::new(0, data.len()));
        }
        Ok(records)
    }
}

/// Matches once at least that many bytes have been seen, and covers the first
/// that many.
#[derive(Debug, Clone, Copy, PartialEq, Eq, Structural)]
pub struct NBytes(pub usize);

impl Needle for NBytes {
    open spec fn search(&self, data: Seq<u8>, eof: bool) -> Result<Seq<Match>, Error> {
        if data.len() >= self.0 {
            Ok(seq![Match { start: 0, end: self.0 }])
        } else {
            Ok(seq![])
        }
    }

    fn check(&self, data: &[u8], eof: bool) -> (r: Result<Vec<Match>, Error>)
        ensures
            r is Ok,
    {
        let mut records: Vec<Match> = Vec::new();
        if data.len() >= self.0 {
            records.push(Match::new(0, self.0));
        }
        Ok(records)
    }
}

/// `pat` stands in `data` at offset `i`.
pub open spec fn occurs_at(data: Seq<u8>, pat: Seq<u8>, i: int) -> bool {
    &&& 0 <= i
    &&& i + pat.len() <= data.len()
    &&& data.subrange(i, i + pat.len()) == pat
}

/// The least offset from `from` on at which `pat` stands in `data`.
pub open spec fn occurrence_from(data: Seq<u8>, pat: Seq<u8>, from: int) -> Option<int>
    decreases data.len() + 1 - from,
{
    if from < 0 || from + pat.len() > data.len() {
        None
    } else if occurs_at(data, pat, from) {
        Some(from)
    } else {
        occurrence_from(data, pat, from + 1)
    }
}

/// The least offset at which `pat` stands in `data`.
pub open spec fn first_occurrence(data: Seq<u8>, pat: Seq<u8>) -> Option<int> {
    occurrence_from(data, pat, 0)
}

/// `occurrence_from` finds an occurrence, skips none, and finds nothing only
/// where there is none.
pub proof fn occurrence_from_is_least(data: Seq<u8>, pat: Seq<u8>, from: int)
    requires
        0 <= from,
    ensures
        match occurrence_from(data, pat, from) {
            Some(i) => from <= i && occurs_at(data, pat, i) && forall|j: int|
                from <= j < i ==> !occurs_at(data, pat, j),
            None => forall|j: int| from <= j ==> !occurs_at(data, pat, j),
        },
    decreases data.len() + 1 - from,
{
    if from + pat.len() > data.len() {
    } else if occurs_at(data, pat, from) {
    } else {
        occurrence_from_is_least(data, pat, from + 1);
    }
}

/// The first occurrence is an occurrence, nothing occurs before it, and there
/// is none only where `pat` stands nowhere in `data`.
pub proof fn first_occurrence_is_least(data: Seq<u8>, pat: Seq<u8>)
    ensures
        match first_occurrence(data, pat) {
            Some(i) => occurs_at(data, pat, i) && forall|j: int|
                0 <= j < i ==> !occurs_at(data, pat, j),
            None => forall|j: int| !occurs_at(data, pat, j),
        },
{
    occurrence_from_is_least(data, pat, 0);
}

/// What a literal reports: one record over its first occurrence.
pub open spec fn literal_search(data: Seq<u8>, pat: Seq<u8>) -> Seq<Match> {
    match first_occurrence(data, pat) {
        Some(i) => seq![Match { start: i as usize, end: (i + pat.len()) as usize }],
        None => seq![],
    }
}

/// The record of a literal covers bytes equal to the literal.
pub proof fn literal_record_covers_literal(data: Seq<u8>, pat: Seq<u8>)
    requires
        data.len() <= usize::MAX,
    ensures
        literal_search(data, pat).len() <= 1,
        literal_search(data, pat).len() == 1 ==> {
            let m = literal_search(data, pat)[0];
            &&& m.start <= m.end <= data.len()
            &&& data.subrange(m.start as int, m.end as int) == pat
        },
{
    first_occurrence_is_least(data, pat);
}

/// Whether `pat` stands in `data` at offset `at`.
fn stands_at(data: &[u8], pat: &[u8], at: usize) -> (r: bool)
    requires
        at + pat@.len() <= data@.len(),
    ensures
        r == occurs_at(data@, pat@, at as int),
{
    let len = data.len();
    let mut k: usize = 0;
    while k < pat.len()
        invariant
            k <= pat@.len(),
            at + pat@.len() <= data@.len() == len,
            forall|j: int| 0 <= j < k ==> data@[at + j] == pat@[j],
        decreases pat@.len() - k,
    {
        if data[at + k] != pat[k] {
            proof {
                let window = data@.subrange(at as int, at + pat@.len());
                assert(window[k as int] == data@[at + k]);
            }
            return false;
        }
        k += 1;
    }
    proof {
        assert(data@.subrange(at as int, at + pat@.len()) =~= pat@);
    }
    true
}

/// Searches `data` for the first occurrence of `pat`.
pub fn find(data: &[u8], pat: &[u8]) -> (r: Vec<Match>)
    ensures
        r@ == literal_search(data@, pat@),
        within(r@, data@.len() as int),
        r@.len() <= 1,
        r@.len() == 1 ==> data@.subrange(r@[0].start as int, r@[0].end as int) == pat@,
        r@.len() == 0 ==> forall|j: int| !occurs_at(data@, pat@, j),
{
    proof {
        first_occurrence_is_least(data@, pat@);
    }
    let mut records: Vec<Match> = Vec::new();
    if pat.len() > data.len() {
        return records;
    }
    let len = data.len();
    let last: usize = len - pat.len();
    let mut at: usize = 0;
    while at < last
        invariant
            data@.len() == len,
            last == data@.len() - pat@.len(),
            at <= last,
            records@.len() == 0,
            occurrence_from(data@, pat@, at as int) == first_occurrence(data@, pat@),
        decreases last - at,
    {
        if stands_at(data, pat, at) {
            records.push(Match::new(at, at + pat.len()));
            return records;
        }
        at += 1;
    }
    if stands_at(data, pat, at) {
        records.push(Match::new(at, at + pat.len()));
    } else {
        assert(occurrence_from(data@, pat@, at + 1) is None);
    }
    records
}

impl Needle for &str {
    open spec fn search(&self, data: Seq<u8>, eof: bool) -> Result<Seq<Match>, Error> {
        Ok(literal_search(data, self.spec_bytes()))
    }

    fn check(&self, data: &[u8], eof: bool) -> (r: Result<Vec<Match>, Error>)
        ensures
            r is Ok,
    {
        Ok(find(data, self.as_bytes()))
    }
}

impl Needle for String {
    open spec fn search(&self, data: Seq<u8>, eof: bool) -> Result<Seq<Match>, Error> {
        Ok(literal_search(data, vstd::utf8::encode_utf8(self@)))
    }

    fn check(&self, data: &[u8], eof: bool) -> (r: Result<Vec<Match>, Error>)
        ensures
            r is Ok,
    {
        Ok(find(data, self.as_str().as_bytes()))
    }
}

impl Needle for &[u8] {
    open spec fn search(&self, data: Seq<u8>, eof: bool) -> Result<Seq<Match>, Error> {
        Ok(literal_search(data, self@))
    }

    fn check(&self, data: &[u8], eof: bool) -> (r: Result<Vec<Match>, Error>)
        ensures
            r is Ok,
    {
        Ok(find(data, self))
    }
}

/// The records of one regex match: a record for each group that took part, in
/// the order of the groups.
pub open spec fn group_records(groups: Seq<Option<(usize, usize)>>) -> Seq<Match>
    decreases groups.len(),
{
    if groups.len() == 0 {
        seq![]
    } else {
        let init = group_records(groups.drop_last());
        match groups.last() {
            Some(g) => init.push(Match { start: g.0, end: g.1 }),
            None => init,
        }
    }
}

/// The records of a search that found `found`.
pub open spec fn capture_records(found: Option<Seq<Option<(usize, usize)>>>) -> Seq<Match> {
    match found {
        Some(groups) => group_records(groups),
        None => seq![],
    }
}

/// A regular expression, written in the syntax of the `regex` crate and
/// matched against bytes.
#[derive(Debug, Clone, Copy)]
pub struct Regex<'a>(pub &'a str);

impl<'a> Regex<'a> {
    /// Turns the groups of one match into records, leaving out the groups that
    /// took no part in it.
    pub fn records(groups: &Vec<Option<(usize, usize)>>) -> (r: Vec<Match>)
        ensures
            r@ == group_records(groups@),
    {
        let mut records: Vec<Match> = Vec::new();
        let mut i: usize = 0;
        while i < groups.len()
            invariant
                i <= groups@.len(),
                records@ == group_records(groups@.take(i as int)),
            decreases groups@.len() - i,
        {
            proof {
                let next = groups@.take(i as int + 1);
                assert(next.drop_last() == groups@.take(i as int));
                assert(next.last() == groups@[i as int]);
            }
            match groups[i] {
                Some(g) => {
                    records.push(Match::new(g.0, g.1));
                },
                None => {},
            }
            i += 1;
        }
        proof {
            assert(groups@.take(i as int) == groups@);
        }
        records
    }
}

/// Records made of groups that lie within `len` bytes lie within them too.
pub proof fn group_records_within(groups: Seq<Option<(usize, usize)>>, len: int)
    requires
        forall|i: int|
            0 <= i < groups.len() ==> ((#[trigger] groups[i]) matches Some(g) ==> g.0 <= g.1 <= len),
    ensures
        within(group_records(groups), len),
    decreases groups.len(),
{
    if groups.len() > 0 {
        let init = groups.drop_last();
        assert forall|i: int| 0 <= i < init.len() implies ((#[trigger] init[i]) matches Some(g)
            ==> g.0 <= g.1 <= len) by {
            assert(init[i] == groups[i]);
        }
        group_records_within(init, len);
        assert(groups.last() == groups[groups.len() - 1]);
    }
}

impl<'a> Needle for Regex<'a> {
    open spec fn search(&self, data: Seq<u8>, eof: bool) -> Result<Seq<Match>, Error> {
        if regex_compiles(self.0@) {
            Ok(capture_records(regex_captures(self.0@, data)))
        } else {
            Err(Error::RegexParsing)
        }
    }

    fn check(&self, data: &[u8], eof: bool) -> (r: Result<Vec<Match>, Error>)
        ensures
            r is Ok <==> regex_compiles(self.0@),
    {
        match captures(self.0, data) {
            Some(Some(groups)) => {
                proof {
                    group_records_within(groups@, data@.len() as int);
                }
                Ok(Regex::records(&groups))
            },
            Some(None) => Ok(Vec::new()),
            None => Err(Error::RegexParsing),
        }
    }
}

/// The needle has found something on `data`.
pub open spec fn reports<N: Needle>(needle: &N, data: Seq<u8>, eof: bool) -> bool {
    needle.search(data, eof) matches Ok(records) && records.len() > 0
}

/// What the needle has found stays found when more bytes arrive, whatever
/// becomes of the end-of-file flag.
pub open spec fn lasting<N: Needle>(needle: &N) -> bool {
    forall|data: Seq<u8>, more: Seq<u8>, eof: bool, later: bool| #[trigger]
        reports(needle, data, eof) ==> #[trigger] reports(needle, data + more, later)
}

/// A literal that stands in `data` stands in every extension of `data`.
pub proof fn literal_search_lasts(data: Seq<u8>, more: Seq<u8>, pat: Seq<u8>)
    requires
        literal_search(data, pat).len() > 0,
    ensures
        literal_search(data + more, pat).len() > 0,
{
    first_occurrence_is_least(data, pat);
    first_occurrence_is_least(data + more, pat);
    let i = first_occurrence(data, pat).unwrap();
    assert((data + more).subrange(i, i + pat.len()) =~= data.subrange(i, i + pat.len()));
    assert(occurs_at(data + more, pat, i));
}

/// A count of bytes that was reached stays reached.
pub proof fn nbytes_is_lasting(needle: &NBytes)
    ensures
        lasting(needle),
{
}

/// A literal string that was found stays found.
pub proof fn str_is_lasting(needle: &&str)
    ensures
        lasting(needle),
{
    assert forall|data: Seq<u8>, more: Seq<u8>, eof: bool, later: bool| #[trigger]
        reports(needle, data, eof) implies #[trigger] reports(needle, data + more, later) by {
        literal_search_lasts(data, more, needle.spec_bytes());
    }
}

/// A literal string that was found stays found.
pub proof fn string_is_lasting(needle: &String)
    ensures
        lasting(needle),
{
    assert forall|data: Seq<u8>, more: Seq<u8>, eof: bool, later: bool| #[trigger]
        reports(needle, data, eof) implies #[trigger] reports(needle, data + more, later) by {
        literal_search_lasts(data, more, vstd::utf8::encode_utf8(needle@));
    }
}

/// Literal bytes that were found stay found.
pub proof fn bytes_are_lasting(needle: &&[u8])
    ensures
        lasting(needle),
{
    assert forall|data: Seq<u8>, more: Seq<u8>, eof: bool, later: bool| #[trigger]
        reports(needle, data, eof) implies #[trigger] reports(needle, data + more, later) by {
        literal_search_lasts(data, more, needle@);
    }
}

/// Where `NBytes(n)` reports anything, its right-most index is `n`.
pub proof fn nbytes_right_most(needle: &NBytes, data: Seq<u8>, eof: bool)
    requires
        reports(needle, data, eof),
    ensures
        crate::found::right_most(needle.search(data, eof).unwrap()) == needle.0,
{
    let records = needle.search(data, eof).unwrap();
    assert(records.drop_last() =~= Seq::<Match>::empty());
    assert(crate::found::right_most(records.drop_last()) == 0);
}

} // verus!
