//! The processor-load segment, and the parser of the kernel's processor statistics
//! (the text of `/proc/stat`) that it reads.
use vstd::prelude::*;

use crate::segment::{fresh_segment_id, Segment, SEGMENT_ID_LEN};

verus! {

/// The byte that ends a line.
pub const NEWLINE: u8 = 10;

/// The byte that separates the words of a line.
pub const SPACE: u8 = 32;

/// The byte of a number's optional sign.
pub const PLUS: u8 = 43;

/// The byte of the digit `0`.
pub const DIGIT_ZERO: u8 = 48;

/// The byte of the digit `9`.
pub const DIGIT_NINE: u8 = 57;

/// The pieces of `s` between the bytes equal to `sep`; an empty `s` is one empty piece.
pub open spec fn pieces(s: Seq<u8>, sep: u8) -> Seq<Seq<u8>>
    decreases s.len(),
{
    if s.len() == 0 {
        seq![Seq::<u8>::empty()]
    } else {
        let before = pieces(s.drop_last(), sep);
        if s.last() == sep {
            before.push(Seq::<u8>::empty())
        } else {
            before.update(before.len() - 1, before.last().push(s.last()))
        }
    }
}

proof fn lemma_pieces_nonempty(s: Seq<u8>, sep: u8)
    ensures
        pieces(s, sep).len() >= 1,
    decreases s.len(),
{
    if s.len() > 0 {
        lemma_pieces_nonempty(s.drop_last(), sep);
    }
}

/// The pieces of `s` that `ranges` delimit.
pub open spec fn ranges_of(s: Seq<u8>, ranges: Seq<(usize, usize)>) -> Seq<Seq<u8>> {
    ranges.map_values(|r: (usize, usize)| s.subrange(r.0 as int, r.1 as int))
}

pub open spec fn ranges_within(ranges: Seq<(usize, usize)>, lo: int, hi: int) -> bool {
    forall|k: int|
        0 <= k < ranges.len() ==> lo <= (#[trigger] ranges[k]).0 <= ranges[k].1 <= hi
}

/// Splits `s[start..end]` at each byte equal to `sep`, giving the bounds of the pieces.
fn split_ranges(s: &[u8], start: usize, end: usize, sep: u8) -> (r: Vec<(usize, usize)>)
    requires
        start <= end <= s@.len(),
    ensures
        ranges_within(r@, start as int, end as int),
        ranges_of(s@, r@) == pieces(s@.subrange(start as int, end as int), sep),
{
    let mut r: Vec<(usize, usize)> = Vec::new();
    let mut from: usize = start;
    let mut i: usize = start;
    assert(s@.subrange(start as int, start as int) =~= Seq::<u8>::empty());
    assert(ranges_of(s@, r@) =~= Seq::<Seq<u8>>::empty());
    assert(pieces(Seq::<u8>::empty(), sep) =~= seq![Seq::<u8>::empty()]);
    while i < end
        invariant
            start <= from <= i <= end <= s@.len(),
            ranges_within(r@, start as int, i as int),
            pieces(s@.subrange(start as int, i as int), sep) == ranges_of(s@, r@).push(
                s@.subrange(from as int, i as int),
            ),
        decreases end - i,
    {
        let ghost before = r@;
        let ghost prefix = s@.subrange(start as int, i + 1);
        assert(prefix.drop_last() =~= s@.subrange(start as int, i as int));
        assert(prefix.last() == s@[i as int]);
        if s[i] == sep {
            r.push((from, i));
            from = i + 1;
            assert(ranges_of(s@, r@) =~= ranges_of(s@, before).push(
                s@.subrange(r@.last().0 as int, i as int),
            ));
            assert(s@.subrange(from as int, i + 1) =~= Seq::<u8>::empty());
        } else {
            assert(s@.subrange(from as int, i + 1) =~= s@.subrange(from as int, i as int).push(
                s@[i as int],
            ));
            assert(pieces(prefix, sep) =~= ranges_of(s@, r@).push(
                s@.subrange(from as int, i + 1),
            ));
        }
        i = i + 1;
    }
    let ghost before = r@;
    r.push((from, end));
    assert(ranges_of(s@, r@) =~= ranges_of(s@, before).push(s@.subrange(from as int, end as int)));
    r
}

pub open spec fn is_digit(b: u8) -> bool {
    DIGIT_ZERO <= b <= DIGIT_NINE
}

pub open spec fn all_digits(d: Seq<u8>) -> bool {
    forall|i: int| 0 <= i < d.len() ==> is_digit(#[trigger] d[i])
}

/// The number that the decimal digits `d` write.
pub open spec fn digits_value(d: Seq<u8>) -> nat
    decreases d.len(),
{
    if d.len() == 0 {
        0
    } else {
        digits_value(d.drop_last()) * 10 + (d.last() - DIGIT_ZERO) as nat
    }
}

/// What follows the sign of `w`, if it has one.
pub open spec fn unsigned_part(w: Seq<u8>) -> Seq<u8> {
    if w.len() > 0 && w[0] == PLUS {
        w.subrange(1, w.len() as int)
    } else {
        w
    }
}

/// The unsigned 64-bit number that `w` writes: an optional `+` sign and one or more
/// decimal digits, of a value that fits; `None` for anything else.
pub open spec fn decimal_of(w: Seq<u8>) -> Option<u64> {
    let d = unsigned_part(w);
    if d.len() > 0 && all_digits(d) && digits_value(d) <= u64::MAX {
        Some(digits_value(d) as u64)
    } else {
        None
    }
}

proof fn lemma_digits_value_prefix(d: Seq<u8>, j: int)
    requires
        0 <= j <= d.len(),
        all_digits(d),
    ensures
        digits_value(d.subrange(0, j)) <= digits_value(d),
    decreases d.len(),
{
    if j < d.len() {
        let shorter = d.drop_last();
        assert(shorter.subrange(0, j) =~= d.subrange(0, j));
        assert(all_digits(shorter)) by {
            assert forall|i: int| 0 <= i < shorter.len() implies is_digit(#[trigger] shorter[i]) by {
                assert(shorter[i] == d[i]);
            }
        }
        lemma_digits_value_prefix(shorter, j);
    } else {
        assert(d.subrange(0, j) =~= d);
    }
}

/// Reads the unsigned number written in `s[start..end]`.
fn parse_decimal(s: &[u8], start: usize, end: usize) -> (r: Option<u64>)
    requires
        start <= end <= s@.len(),
    ensures
        r == decimal_of(s@.subrange(start as int, end as int)),
{
    let ghost w = s@.subrange(start as int, end as int);
    let mut i: usize = start;
    if i < end && s[i] == PLUS {
        i = i + 1;
    }
    let first = i;
    assert(s@.subrange(first as int, end as int) =~= unsigned_part(w));
    let ghost d = s@.subrange(first as int, end as int);
    if first == end {
        return None;
    }
    let mut value: u64 = 0;
    while i < end
        invariant
            first <= i <= end <= s@.len(),
            d == s@.subrange(first as int, end as int),
            w == s@.subrange(start as int, end as int),
            d == unsigned_part(w),
            first < end,
            all_digits(s@.subrange(first as int, i as int)),
            value == digits_value(s@.subrange(first as int, i as int)),
        decreases end - i,
    {
        let ghost next = s@.subrange(first as int, i + 1);
        assert(next.drop_last() =~= s@.subrange(first as int, i as int));
        assert(next =~= d.subrange(0, i + 1 - first));
        let b = s[i];
        if b < DIGIT_ZERO || b > DIGIT_NINE {
            assert(d[i - first] == b);
            assert(!is_digit(d[i - first]));
            return None;
        }
        assert(all_digits(next)) by {
            assert forall|k: int| 0 <= k < next.len() implies is_digit(#[trigger] next[k]) by {
                if k < next.len() - 1 {
                    assert(next[k] == s@.subrange(first as int, i as int)[k]);
                }
            }
        }
        let grown = match value.checked_mul(10) {
            Some(m) => m.checked_add((b - DIGIT_ZERO) as u64),
            None => None,
        };
        match grown {
            Some(v) => {
                value = v;
            },
            None => {
                proof {
                    assert(digits_value(next) == value * 10 + (b - DIGIT_ZERO) as nat);
                    if all_digits(d) {
                        lemma_digits_value_prefix(d, i + 1 - first);
                        assert(digits_value(d) > u64::MAX);
                    }
                }
                return None;
            },
        }
        i = i + 1;
    }
    assert(s@.subrange(first as int, i as int) =~= d);
    Some(value)
}

/// The numbers among `words`, in order; words that write no number are left out.
pub open spec fn numbers_of(words: Seq<Seq<u8>>) -> Seq<u64>
    decreases words.len(),
{
    if words.len() == 0 {
        Seq::empty()
    } else {
        let before = numbers_of(words.drop_last());
        match decimal_of(words.last()) {
            Some(v) => before.push(v),
            None => before,
        }
    }
}

/// The counters of a statistics line: the numbers among its space-separated words,
/// after the first two (the line's label and the empty word that follows it).
pub open spec fn line_values(line: Seq<u8>) -> Seq<u64> {
    let words = pieces(line, SPACE);
    if words.len() <= 2 {
        Seq::empty()
    } else {
        numbers_of(words.subrange(2, words.len() as int))
    }
}

/// Reads the counters of the statistics line `s[start..end]`.
fn read_line_values(s: &[u8], start: usize, end: usize) -> (r: Vec<u64>)
    requires
        start <= end <= s@.len(),
    ensures
        r@ == line_values(s@.subrange(start as int, end as int)),
{
    let words = split_ranges(s, start, end, SPACE);
    let ghost ws = pieces(s@.subrange(start as int, end as int), SPACE);
    let mut values: Vec<u64> = Vec::new();
    if words.len() <= 2 {
        return values;
    }
    let mut k: usize = 2;
    while k < words.len()
        invariant
            2 <= k <= words@.len(),
            ranges_within(words@, start as int, end as int),
            end <= s@.len(),
            ranges_of(s@, words@) == ws,
            values@ == numbers_of(ws.subrange(2, k as int)),
        decreases words@.len() - k,
    {
        let (a, b) = words[k];
        assert(ranges_within(words@, start as int, end as int));
        assert(words@[k as int].0 <= words@[k as int].1);
        assert(ws[k as int] == s@.subrange(a as int, b as int));
        assert(ws.subrange(2, k + 1).drop_last() =~= ws.subrange(2, k as int));
        match parse_decimal(s, a, b) {
            Some(v) => {
                values.push(v);
            },
            None => {},
        }
        k = k + 1;
    }
    assert(ws.len() == words@.len());
    values
}

/// A line of the aggregate processor counters starts with `cpu `.
pub open spec fn is_total_line(line: Seq<u8>) -> bool {
    line.len() >= 4 && line[0] == 99 && line[1] == 112 && line[2] == 117 && line[3] == SPACE
}

/// The idle time of a counters line (idle and waiting for I/O), wrapping on overflow.
pub open spec fn idle_of(v: Seq<u64>) -> u64 {
    v[3].wrapping_add(v[4])
}

/// The busy time of a counters line (user, nice, system, interrupts, soft interrupts
/// and stolen time), wrapping on overflow.
pub open spec fn busy_of(v: Seq<u64>) -> u64 {
    v[0].wrapping_add(v[1]).wrapping_add(v[2]).wrapping_add(v[5]).wrapping_add(v[6]).wrapping_add(
        v[7],
    )
}

/// The time that passed between two readings of the counters, and the idle part of it.
/// Where the counters did not advance (or went back), both are 1.
#[derive(Clone, Copy, Debug, PartialEq, Eq, Structural)]
pub struct CpuDelta {
    pub total: u64,
    pub idle: u64,
}

/// The counters as last read: idle time and busy time.
pub struct CpuCounters {
    pub idle: u64,
    pub busy: u64,
}

/// The change from the counters `c` to the counters `idle` and `busy`.
pub open spec fn delta_of(c: CpuCounters, idle: u64, busy: u64) -> CpuDelta {
    let prev_total = c.idle.wrapping_add(c.busy);
    let total = idle.wrapping_add(busy);
    if prev_total < total && c.idle <= idle {
        CpuDelta { total: (total - prev_total) as u64, idle: (idle - c.idle) as u64 }
    } else {
        CpuDelta { total: 1, idle: 1 }
    }
}

/// The counters and the last change after reading the lines `lines`, from the counters
/// `c`: each line of aggregate counters with more than seven of them is a new reading.
pub open spec fn read_lines(c: CpuCounters, lines: Seq<Seq<u8>>) -> (CpuCounters, Option<CpuDelta>)
    decreases lines.len(),
{
    if lines.len() == 0 {
        (c, None)
    } else {
        let (before, last_delta) = read_lines(c, lines.drop_last());
        let line = lines.last();
        let v = line_values(line);
        if is_total_line(line) && v.len() > 7 {
            (
                CpuCounters { idle: idle_of(v), busy: busy_of(v) },
                Some(delta_of(before, idle_of(v), busy_of(v))),
            )
        } else {
            (before, last_delta)
        }
    }
}

/// The segment that shows the processor load.
pub struct Cpu {
    id: String,
    idle: u64,
    non_idle: u64,
}

impl Cpu {
    pub closed spec fn spec_id(&self) -> Seq<char> {
        self.id@
    }

    /// The counters as last read.
    pub closed spec fn counters(&self) -> CpuCounters {
        CpuCounters { idle: self.idle, busy: self.non_idle }
    }

    /// Reads the processor statistics `stat` (the bytes of `/proc/stat`): takes each line
    /// of aggregate counters as a new reading and returns the change over the last
    /// reading, or `None` where `stat` holds no such line.
    pub fn load(&mut self, stat: &[u8]) -> (r: Option<CpuDelta>)
        ensures
            (final(self).counters(), r) == read_lines(old(self).counters(), pieces(stat@, NEWLINE)),
            final(self).spec_id() == old(self).spec_id(),
    {
        let lines = split_ranges(stat, 0, stat.len(), NEWLINE);
        let ghost ls = pieces(stat@, NEWLINE);
        let ghost start = self.counters();
        assert(stat@.subrange(0, stat@.len() as int) =~= stat@);
        let mut last: Option<CpuDelta> = None;
        let mut k: usize = 0;
        while k < lines.len()
            invariant
                k <= lines@.len(),
                ranges_within(lines@, 0, stat@.len() as int),
                ranges_of(stat@, lines@) == ls,
                (self.counters(), last) == read_lines(start, ls.subrange(0, k as int)),
                self.spec_id() == old(self).spec_id(),
            decreases lines@.len() - k,
        {
            let (a, b) = lines[k];
            assert(lines@[k as int].0 <= lines@[k as int].1);
            let ghost line = ls[k as int];
            assert(line == stat@.subrange(a as int, b as int));
            assert(ls.subrange(0, k + 1).drop_last() =~= ls.subrange(0, k as int));
            let total_line = b - a >= 4 && stat[a] == 99 && stat[a + 1] == 112 && stat[a + 2]
                == 117 && stat[a + 3] == SPACE;
            if total_line {
                let v = read_line_values(stat, a, b);
                if v.len() > 7 {
                    let idle = v[3].wrapping_add(v[4]);
                    let busy = v[0].wrapping_add(v[1]).wrapping_add(v[2]).wrapping_add(
                        v[5],
                    ).wrapping_add(v[6]).wrapping_add(v[7]);
                    let prev_total = self.idle.wrapping_add(self.non_idle);
                    let total = idle.wrapping_add(busy);
                    let delta = if prev_total < total && self.idle <= idle {
                        CpuDelta { total: total - prev_total, idle: idle - self.idle }
                    } else {
                        CpuDelta { total: 1, idle: 1 }
                    };
                    self.idle = idle;
                    self.non_idle = busy;
                    last = Some(delta);
                }
            }
            k = k + 1;
        }
        assert(ls.subrange(0, k as int) =~= ls);
        last
    }
}

impl Segment for Cpu {
    fn new() -> (c: Cpu)
        ensures
            c.spec_id().len() == SEGMENT_ID_LEN,
            c.counters() == (CpuCounters { idle: 0, busy: 0 }),
    {
        Cpu { id: fresh_segment_id(), idle: 0, non_idle: 0 }
    }

    fn id(&self) -> (r: &str)
        ensures
            r@ == self.spec_id(),
    {
        self.id.as_str()
    }
}

} // verus!
