//! Reading the responses of an engine, line by line.

use vstd::prelude::*;
use crate::error::Error;
use crate::text::{is_blank, is_space, slice_copy, space};
use crate::usi::engine::{decode, EngineCommand, EngineCommandView};

verus! {

/// A line of an engine with the response that it carries and the time at
/// which it was read.
#[derive(Debug)]
pub struct EngineOutput {
    response: Option<EngineCommand>,
    raw_str: Vec<u8>,
    timestamp: u64,
}

/// The model of an `EngineOutput`.
pub struct EngineOutputView {
    pub response: Option<EngineCommandView>,
    pub raw_str: Seq<u8>,
    pub timestamp: u64,
}

impl View for EngineOutput {
    type V = EngineOutputView;

    closed spec fn view(&self) -> EngineOutputView {
        EngineOutputView {
            response: match self.response {
                Some(c) => Some(c@),
                None => None,
            },
            raw_str: self.raw_str@,
            timestamp: self.timestamp,
        }
    }
}

impl EngineOutput {
    /// An output as it is read: `response` from `raw_str` at `timestamp`.
    pub fn new(response: Option<EngineCommand>, raw_str: Vec<u8>, timestamp: u64) -> (out:
        EngineOutput)
        ensures
            out@.response == (match response {
                Some(c) => Some(c@),
                None => None::<EngineCommandView>,
            }),
            out@.raw_str == raw_str@,
            out@.timestamp == timestamp,
    {
        EngineOutput { response, raw_str, timestamp }
    }

    /// The response, or `None` at the end of the engine's output.
    pub fn response(&self) -> (r: &Option<EngineCommand>)
        ensures
            match *r {
                Some(c) => self@.response == Some(c@),
                None => self@.response.is_none(),
            },
    {
        &self.response
    }

    /// The line as it was read, with its line feed.
    pub fn raw_str(&self) -> (r: &[u8])
        ensures
            r@ == self@.raw_str,
    {
        self.raw_str.as_slice()
    }

    /// The time at which the line was read.
    pub fn timestamp(&self) -> (r: &u64)
        ensures
            *r == self@.timestamp,
    {
        &self.timestamp
    }
}

/// The length of the first line of `s`, its line feed included.
pub open spec fn line_len(s: Seq<u8>) -> nat
    decreases s.len(),
{
    if s.len() == 0 {
        0
    } else if s[0] == 10 {
        1
    } else {
        1 + line_len(s.skip(1))
    }
}

/// The first line of `s`, with its line feed where it has one.
pub open spec fn first_line(s: Seq<u8>) -> Seq<u8> {
    s.take(line_len(s) as int)
}

/// What follows the first line of `s`.
pub open spec fn after_first_line(s: Seq<u8>) -> Seq<u8> {
    s.skip(line_len(s) as int)
}

/// `s` without the blank lines at its start.
pub open spec fn skip_blank_lines(s: Seq<u8>) -> Seq<u8>
    decreases s.len(),
{
    if s.len() > 0 && 0 < line_len(s) <= s.len() && is_blank(first_line(s)) {
        skip_blank_lines(after_first_line(s))
    } else {
        s
    }
}

/// A line ends at the first line feed or at the end of the text.
pub proof fn lemma_line_len(s: Seq<u8>)
    ensures
        line_len(s) <= s.len(),
        s.len() > 0 ==> line_len(s) > 0,
        forall|i: int| 0 <= i < line_len(s) - 1 ==> #[trigger] s[i] != 10,
        line_len(s) < s.len() ==> s[line_len(s) - 1] == 10,
    decreases s.len(),
{
    if s.len() > 0 && s[0] != 10 {
        let t = s.skip(1);
        lemma_line_len(t);
        assert forall|i: int| 0 <= i < line_len(s) - 1 implies #[trigger] s[i] != 10 by {
            if i > 0 {
                assert(s[i] == t[i - 1]);
            }
        }
        if line_len(s) < s.len() {
            assert(s[line_len(s) - 1] == t[line_len(t) - 1]);
        }
    }
}

/// What is left of an engine's output, each byte with the time at which it
/// arrived, and the time at which the last of the output arrived.
pub struct EngineCommandReader {
    receive: Vec<(u8, u64)>,
    read_at: u64,
}

/// The model of an `EngineCommandReader`.
pub struct ReaderView {
    /// The bytes that are still to be read.
    pub pending: Seq<u8>,
    /// The time at which each of those bytes arrived.
    pub stamps: Seq<u64>,
    /// The time at which the last output arrived.
    pub read_at: u64,
}

/// The bytes of a list of stamped bytes.
pub open spec fn bytes_of_stamped(v: Seq<(u8, u64)>) -> Seq<u8> {
    Seq::new(v.len(), |i: int| v[i].0)
}

/// The stamps of a list of stamped bytes.
pub open spec fn stamps_of_stamped(v: Seq<(u8, u64)>) -> Seq<u64> {
    Seq::new(v.len(), |i: int| v[i].1)
}

impl View for EngineCommandReader {
    type V = ReaderView;

    closed spec fn view(&self) -> ReaderView {
        ReaderView {
            pending: bytes_of_stamped(self.receive@),
            stamps: stamps_of_stamped(self.receive@),
            read_at: self.read_at,
        }
    }
}

/// How many bytes `next` spends on the output `pending`: the blank lines at
/// its start and the line behind them.
pub open spec fn spent(pending: Seq<u8>) -> int {
    pending.len() - after_first_line(skip_blank_lines(pending)).len()
}

/// The time that `next` stamps its output with: the time at which the last
/// byte of the line arrived, or at the end of the output the time at which
/// the last output arrived.
pub open spec fn line_stamp(reader: ReaderView) -> u64 {
    if first_line(skip_blank_lines(reader.pending)).len() == 0 {
        reader.read_at
    } else {
        reader.stamps[spent(reader.pending) - 1]
    }
}

/// The end of the line that starts at `from`.
fn line_end(s: &[u8], from: usize) -> (end: usize)
    requires
        from <= s.len(),
    ensures
        end == from + line_len(s@.skip(from as int)),
        from <= end <= s.len(),
{
    let mut i = from;
    let ghost rest = s@.skip(from as int);
    proof {
        assert(rest.skip(0) =~= rest);
    }
    while i < s.len()
        invariant
            from <= i <= s.len(),
            rest == s@.skip(from as int),
            line_len(rest) == (i - from) + line_len(rest.skip(i - from)),
        decreases s.len() - i,
    {
        let ghost tail = rest.skip(i - from);
        proof {
            assert(tail[0] == s@[i as int]);
            assert(tail.skip(1) =~= rest.skip(i + 1 - from));
        }
        if s[i] == 10 {
            return i + 1;
        }
        i += 1;
    }
    proof {
        assert(rest.skip(i - from).len() == 0);
    }
    i
}

/// Whether `s[from..to]` is blank.
fn blank(s: &[u8], from: usize, to: usize) -> (r: bool)
    requires
        from <= to <= s.len(),
    ensures
        r == is_blank(s@.subrange(from as int, to as int)),
{
    let ghost part = s@.subrange(from as int, to as int);
    let mut i = from;
    while i < to
        invariant
            from <= i <= to <= s.len(),
            part == s@.subrange(from as int, to as int),
            forall|j: int| 0 <= j < i - from ==> is_space(#[trigger] part[j]),
        decreases to - i,
    {
        proof {
            assert(part[i - from] == s@[i as int]);
        }
        if !space(s[i]) {
            return false;
        }
        i += 1;
    }
    true
}

/// One more `stamp` for every byte of a chunk of `n` bytes.
pub open spec fn stamped_all(n: nat, stamp: u64) -> Seq<u64> {
    Seq::new(n, |i: int| stamp)
}

impl EngineCommandReader {
    /// A reader of the output in `receive`, stamped with time zero.
    pub fn new(receive: &[u8]) -> (reader: EngineCommandReader)
        ensures
            reader@.pending == receive@,
            reader@.stamps == stamped_all(receive@.len(), 0),
            reader@.read_at == 0,
    {
        let mut reader = EngineCommandReader { receive: Vec::new(), read_at: 0 };
        proof {
            assert(reader@.pending =~= Seq::<u8>::empty());
            assert(reader@.stamps =~= Seq::<u64>::empty());
        }
        reader.feed(receive, 0);
        proof {
            assert(reader@.pending =~= receive@);
            assert(reader@.stamps =~= stamped_all(receive@.len(), 0));
        }
        reader
    }

    /// Adds output that has arrived at time `now`.
    pub fn feed(&mut self, chunk: &[u8], now: u64)
        ensures
            final(self)@.pending == old(self)@.pending + chunk@,
            final(self)@.stamps == old(self)@.stamps + stamped_all(chunk@.len(), now),
            final(self)@.read_at == now,
    {
        let mut i: usize = 0;
        while i < chunk.len()
            invariant
                i <= chunk.len(),
                self.read_at == old(self).read_at,
                bytes_of_stamped(self.receive@) == old(self)@.pending + chunk@.take(i as int),
                stamps_of_stamped(self.receive@) == old(self)@.stamps + stamped_all(i as nat, now),
            decreases chunk.len() - i,
        {
            let ghost before = self.receive@;
            let ghost bytes_before = bytes_of_stamped(before);
            let ghost stamps_before = stamps_of_stamped(before);
            self.receive.push((chunk[i], now));
            proof {
                let after = self.receive@;
                assert(after == before.push((chunk@[i as int], now)));
                assert(bytes_of_stamped(after) =~= bytes_before.push(chunk@[i as int])) by {
                    assert forall|k: int| 0 <= k < after.len() implies bytes_of_stamped(after)[k]
                        == bytes_before.push(chunk@[i as int])[k] by {
                        if k < before.len() {
                            assert(after[k] == before[k]);
                            assert(bytes_before[k] == before[k].0);
                        }
                    }
                }
                assert(stamps_of_stamped(after) =~= stamps_before.push(now)) by {
                    assert forall|k: int| 0 <= k < after.len() implies stamps_of_stamped(after)[k]
                        == stamps_before.push(now)[k] by {
                        if k < before.len() {
                            assert(after[k] == before[k]);
                            assert(stamps_before[k] == before[k].1);
                        }
                    }
                }
                assert(chunk@.take(i + 1) =~= chunk@.take(i as int).push(chunk@[i as int]));
                assert(stamped_all((i + 1) as nat, now) =~= stamped_all(i as nat, now).push(now));
                assert(bytes_before.push(chunk@[i as int]) =~= old(self)@.pending + chunk@.take(
                    i + 1,
                ));
                assert(stamps_before.push(now) =~= old(self)@.stamps + stamped_all(
                    (i + 1) as nat,
                    now,
                ));
            }
            i += 1;
        }
        proof {
            assert(chunk@.take(chunk.len() as int) =~= chunk@);
        }
        self.read_at = now;
    }

    /// The bytes that are still to be read.
    fn bytes(&self) -> (out: Vec<u8>)
        ensures
            out@ == self@.pending,
    {
        let mut out: Vec<u8> = Vec::new();
        let mut i: usize = 0;
        while i < self.receive.len()
            invariant
                i <= self.receive.len(),
                out@ == bytes_of_stamped(self.receive@).take(i as int),
            decreases self.receive.len() - i,
        {
            out.push(self.receive[i].0);
            proof {
                assert(out@ =~= bytes_of_stamped(self.receive@).take(i + 1));
            }
            i += 1;
        }
        proof {
            assert(bytes_of_stamped(self.receive@).take(self.receive.len() as int)
                =~= bytes_of_stamped(self.receive@));
        }
        out
    }

    /// Reads the next response. Blank lines are skipped. The output bears
    /// the time at which the last byte of its line arrived. At the end of
    /// the output the result holds no response and an empty line, and
    /// bears the time at which the last output arrived. A line that is no
    /// response is an error; the line is spent all the same.
    pub fn next(&mut self) -> (r: Result<EngineOutput, Error>)
        ensures
            final(self)@.read_at == old(self)@.read_at,
            final(self)@.pending == after_first_line(skip_blank_lines(old(self)@.pending)),
            final(self)@.stamps == old(self)@.stamps.skip(spent(old(self)@.pending)),
            next_result(r, first_line(skip_blank_lines(old(self)@.pending)), line_stamp(old(self)@)),
    {
        let bytes = self.bytes();
        let mut start: usize = 0;
        let ghost all = bytes@;
        proof {
            assert(all.skip(0) =~= all);
        }
        let mut end: usize = line_end(bytes.as_slice(), 0);
        while start < bytes.len() && blank(bytes.as_slice(), start, end)
            invariant
                start <= end <= bytes.len(),
                bytes@ == all,
                end == start + line_len(all.skip(start as int)),
                skip_blank_lines(all) == skip_blank_lines(all.skip(start as int)),
            decreases bytes.len() - start,
        {
            proof {
                let rest = all.skip(start as int);
                lemma_line_len(rest);
                assert(first_line(rest) =~= all.subrange(start as int, end as int));
                assert(after_first_line(rest) =~= all.skip(end as int));
            }
            start = end;
            end = line_end(bytes.as_slice(), start);
        }
        let ghost rest = all.skip(start as int);
        proof {
            lemma_line_len(rest);
            assert(first_line(rest) =~= all.subrange(start as int, end as int));
            assert(after_first_line(rest) =~= all.skip(end as int));
            assert(skip_blank_lines(rest) == rest);
            assert(spent(all) == end);
            assert(start < end <==> first_line(rest).len() > 0);
        }
        let line = slice_copy(bytes.as_slice(), start, end);
        let stamp = if start < end {
            self.receive[end - 1].1
        } else {
            self.read_at
        };
        let mut left: Vec<(u8, u64)> = Vec::new();
        let mut i: usize = end;
        while i < self.receive.len()
            invariant
                end <= i <= self.receive.len(),
                self.receive@ == old(self).receive@,
                left@ == self.receive@.subrange(end as int, i as int),
            decreases self.receive.len() - i,
        {
            left.push(self.receive[i]);
            proof {
                assert(left@ =~= self.receive@.subrange(end as int, i + 1));
            }
            i += 1;
        }
        proof {
            let kept = old(self).receive@.subrange(end as int, old(self).receive@.len() as int);
            assert(bytes_of_stamped(kept) =~= all.skip(end as int));
            assert(stamps_of_stamped(kept) =~= old(self)@.stamps.skip(end as int));
        }
        self.receive = left;
        if line.len() == 0 {
            return Ok(EngineOutput { response: None, raw_str: line, timestamp: stamp });
        }
        match EngineCommand::parse(line.as_slice()) {
            Ok(response) => Ok(
                EngineOutput { response: Some(response), raw_str: line, timestamp: stamp },
            ),
            Err(e) => Err(Error::Usi(e)),
        }
    }
}

/// What `next` returns for the line `line` that bears the time `read_at`:
/// nothing at the end of the output, the response of the line, or the
/// reason for which the line is none.
pub open spec fn next_result(r: Result<EngineOutput, Error>, line: Seq<u8>, read_at: u64) -> bool {
    if line.len() == 0 {
        r matches Ok(out) && out@ == (EngineOutputView {
            response: None,
            raw_str: line,
            timestamp: read_at,
        })
    } else {
        match decode(line) {
            Ok(c) => r matches Ok(out) && out@ == (EngineOutputView {
                response: Some(c),
                raw_str: line,
                timestamp: read_at,
            }),
            Err(e) => r matches Err(err) && err == Error::Usi(e),
        }
    }
}

/// The line that `next` reads is not blank, unless the output is at its
/// end.
pub proof fn lemma_next_line_not_blank(s: Seq<u8>)
    ensures
        first_line(skip_blank_lines(s)).len() == 0 || !is_blank(first_line(skip_blank_lines(s))),
        first_line(skip_blank_lines(s)).len() == 0 <==> skip_blank_lines(s).len() == 0,
    decreases s.len(),
{
    lemma_line_len(s);
    if s.len() > 0 && 0 < line_len(s) <= s.len() && is_blank(first_line(s)) {
        lemma_next_line_not_blank(after_first_line(s));
    }
}

} // verus!
