use vstd::prelude::*;
use vstd::string::StringSliceAdditionalSpecFns;

verus! {

/// One frame of the transcoder's progress report. Fields that the frame did
/// not carry are `None`.
#[derive(Clone, Copy, Debug, PartialEq, Eq, Structural)]
pub struct Progress {
    pub total_size: Option<u64>,
}

/// The record at the start of each frame: no field set.
pub open spec fn empty_progress() -> Progress {
    Progress { total_size: None }
}

impl Progress {
    /// A record with no field set.
    pub fn new() -> (r: Progress)
        ensures
            r == empty_progress(),
    {
        Progress { total_size: None }
    }
}

pub open spec fn is_digit(b: u8) -> bool {
    48 <= b <= 57
}

/// The value of a decimal digit; zero for any other byte.
pub open spec fn digit_value(b: u8) -> nat {
    if is_digit(b) {
        (b - 48) as nat
    } else {
        0
    }
}

/// The number that the decimal digits `d` write.
pub open spec fn decimal(d: Seq<u8>) -> nat
    decreases d.len(),
{
    if d.len() == 0 {
        0
    } else {
        decimal(d.drop_last()) * 10 + digit_value(d.last())
    }
}

/// The digits of a numeric value: the value without one leading `+`.
pub open spec fn digits_of(v: Seq<u8>) -> Seq<u8> {
    if v.len() > 0 && v[0] == 43 {
        v.drop_first()
    } else {
        v
    }
}

/// The unsigned 64-bit number that `v` writes in decimal, with an optional
/// leading `+`; `None` when `v` writes no such number.
pub open spec fn number_of(v: Seq<u8>) -> Option<u64> {
    let d = digits_of(v);
    if d.len() > 0 && (forall|k: int| 0 <= k < d.len() ==> is_digit(#[trigger] d[k])) && decimal(d)
        <= u64::MAX {
        Some(decimal(d) as u64)
    } else {
        None
    }
}

/// The position of the first `=` in `line` at or after `i`, or the length
/// of `line` when there is none.
pub open spec fn eq_from(line: Seq<u8>, i: int) -> int
    decreases line.len() - i,
{
    if i >= line.len() {
        line.len() as int
    } else if line[i] == 61 {
        i
    } else {
        eq_from(line, i + 1)
    }
}

/// The key of a `key=value` line: what stands before its first `=`.
pub open spec fn key_of(line: Seq<u8>) -> Seq<u8> {
    line.take(eq_from(line, 0))
}

/// The value of a `key=value` line: what stands after its first `=`.
pub open spec fn value_of(line: Seq<u8>) -> Seq<u8> {
    line.skip(eq_from(line, 0) + 1)
}

/// The key that carries the cumulative output size.
pub open spec fn size_key() -> Seq<u8> {
    "total_size".spec_bytes()
}

/// The key that closes a frame.
pub open spec fn frame_key() -> Seq<u8> {
    "progress".spec_bytes()
}

/// A line without its trailing carriage return, if it has one.
pub open spec fn strip_cr(line: Seq<u8>) -> Seq<u8> {
    if line.len() > 0 && line.last() == 13 {
        line.drop_last()
    } else {
        line
    }
}

/// The effect of one protocol line on the record being built: the new record
/// and the record that the line completes, if any. A line without `=` and a
/// line with an unknown key change nothing; a `total_size` whose value is not
/// a number is skipped; the frame key hands the record out and starts afresh.
pub open spec fn apply_line(rec: Progress, line: Seq<u8>) -> (Progress, Option<Progress>) {
    if eq_from(line, 0) >= line.len() {
        (rec, None)
    } else if key_of(line) == frame_key() {
        (empty_progress(), Some(rec))
    } else if key_of(line) == size_key() {
        match number_of(value_of(line)) {
            Some(n) => (Progress { total_size: Some(n) }, None),
            None => (rec, None),
        }
    } else {
        (rec, None)
    }
}

/// A line whose key is the frame key hands out the record built so far and
/// leaves an empty record behind.
pub proof fn lemma_frame_resets(rec: Progress, line: Seq<u8>)
    requires
        eq_from(line, 0) < line.len(),
        key_of(line) == frame_key(),
    ensures
        apply_line(rec, line) == (empty_progress(), Some(rec)),
{
}

/// Two frame lines in a row, with no key between them, hand out two records:
/// the one built before them, then an empty one.
pub proof fn lemma_consecutive_frames(rec: Progress, first: Seq<u8>, second: Seq<u8>)
    requires
        eq_from(first, 0) < first.len(),
        key_of(first) == frame_key(),
        eq_from(second, 0) < second.len(),
        key_of(second) == frame_key(),
    ensures
        ({
            let (mid, e1) = apply_line(rec, first);
            let (last, e2) = apply_line(mid, second);
            &&& e1 == Some(rec)
            &&& e2 == Some(empty_progress())
            &&& last == empty_progress()
        }),
{
}

/// A line with a key that the protocol does not define changes no field and
/// hands out no record.
pub proof fn lemma_unknown_key_ignored(rec: Progress, line: Seq<u8>)
    requires
        key_of(line) != frame_key(),
        key_of(line) != size_key(),
    ensures
        apply_line(rec, line) == (rec, None::<Progress>),
{
}

/// The records emitted so far, with `e` appended when it is one.
pub open spec fn append_emitted(out: Seq<Progress>, e: Option<Progress>) -> Seq<Progress> {
    match e {
        Some(p) => out.push(p),
        None => out,
    }
}

/// Parsing state after reading `data`, from the record `rec` and the
/// unterminated line `pending`: the record being built, the line still
/// unterminated, and the records that completed, in order.
pub open spec fn feed_spec(rec: Progress, pending: Seq<u8>, data: Seq<u8>) -> (
    Progress,
    Seq<u8>,
    Seq<Progress>,
)
    decreases data.len(),
{
    if data.len() == 0 {
        (rec, pending, Seq::empty())
    } else {
        let prev = feed_spec(rec, pending, data.drop_last());
        if data.last() == 10 {
            let (next, e) = apply_line(prev.0, strip_cr(prev.1));
            (next, Seq::empty(), append_emitted(prev.2, e))
        } else {
            (prev.0, prev.1.push(data.last()), prev.2)
        }
    }
}

/// Bytes without a line end only grow the unterminated line.
proof fn lemma_feed_partial(rec: Progress, pending: Seq<u8>, data: Seq<u8>)
    requires
        forall|k: int| 0 <= k < data.len() ==> data[k] != 10,
    ensures
        feed_spec(rec, pending, data) == (rec, pending + data, Seq::<Progress>::empty()),
    decreases data.len(),
{
    if data.len() > 0 {
        lemma_feed_partial(rec, pending, data.drop_last());
        assert(pending + data.drop_last().push(data.last()) =~= pending + data);
    } else {
        assert(pending + data =~= pending);
    }
}

/// Feeding one whole line, its `\n` included, to a parser with no
/// unterminated bytes applies that line and nothing else.
pub proof fn lemma_feed_line(rec: Progress, line: Seq<u8>)
    requires
        forall|k: int| 0 <= k < line.len() ==> line[k] != 10,
    ensures
        ({
            let (next, e) = apply_line(rec, strip_cr(line));
            feed_spec(rec, Seq::empty(), line.push(10)) == (
                next,
                Seq::<u8>::empty(),
                append_emitted(Seq::empty(), e),
            )
        }),
{
    lemma_feed_partial(rec, Seq::empty(), line);
    assert(line.push(10).drop_last() =~= line);
    assert(Seq::<u8>::empty() + line =~= line);
}

/// A whole line with an unknown key, fed to a parser with no unterminated
/// bytes, leaves its record as it was and emits nothing.
pub proof fn lemma_feed_unknown_key(rec: Progress, line: Seq<u8>)
    requires
        forall|k: int| 0 <= k < line.len() ==> line[k] != 10,
        key_of(strip_cr(line)) != frame_key(),
        key_of(strip_cr(line)) != size_key(),
    ensures
        feed_spec(rec, Seq::empty(), line.push(10)) == (
            rec,
            Seq::<u8>::empty(),
            Seq::<Progress>::empty(),
        ),
{
    lemma_feed_line(rec, line);
}

/// Feeding `a` and then `b` is feeding `a + b`.
pub proof fn lemma_feed_concat(rec: Progress, pending: Seq<u8>, a: Seq<u8>, b: Seq<u8>)
    ensures
        ({
            let first = feed_spec(rec, pending, a);
            let second = feed_spec(first.0, first.1, b);
            feed_spec(rec, pending, a + b) == (second.0, second.1, first.2 + second.2)
        }),
    decreases b.len(),
{
    let first = feed_spec(rec, pending, a);
    if b.len() == 0 {
        assert(a + b =~= a);
        assert(first.2 + Seq::<Progress>::empty() =~= first.2);
    } else {
        lemma_feed_concat(rec, pending, a, b.drop_last());
        assert((a + b).drop_last() =~= a + b.drop_last());
        assert((a + b).last() == b.last());
        let prev = feed_spec(first.0, first.1, b.drop_last());
        let (next, e) = apply_line(prev.0, strip_cr(prev.1));
        assert(append_emitted(first.2 + prev.2, e) =~= first.2 + append_emitted(prev.2, e));
    }
}

/// Two whole frame lines in a row, fed to a fresh parser, emit two records,
/// both empty, and leave an empty record behind.
pub proof fn lemma_feed_consecutive_frames(first: Seq<u8>, second: Seq<u8>)
    requires
        forall|k: int| 0 <= k < first.len() ==> first[k] != 10,
        forall|k: int| 0 <= k < second.len() ==> second[k] != 10,
        eq_from(strip_cr(first), 0) < strip_cr(first).len(),
        key_of(strip_cr(first)) == frame_key(),
        eq_from(strip_cr(second), 0) < strip_cr(second).len(),
        key_of(strip_cr(second)) == frame_key(),
    ensures
        feed_spec(empty_progress(), Seq::empty(), first.push(10) + second.push(10)) == (
            empty_progress(),
            Seq::<u8>::empty(),
            seq![empty_progress(), empty_progress()],
        ),
{
    lemma_feed_line(empty_progress(), first);
    lemma_feed_line(empty_progress(), second);
    lemma_feed_concat(empty_progress(), Seq::empty(), first.push(10), second.push(10));
    assert(append_emitted(Seq::empty(), Some(empty_progress())) + append_emitted(
        Seq::empty(),
        Some(empty_progress()),
    ) =~= seq![empty_progress(), empty_progress()]);
}

/// Position of the first `=` in `line`, or its length when there is none.
fn find_eq(line: &[u8]) -> (r: usize)
    ensures
        r == eq_from(line@, 0),
{
    let mut i: usize = 0;
    while i < line.len()
        invariant
            i <= line@.len(),
            eq_from(line@, 0) == eq_from(line@, i as int),
        decreases line@.len() - i,
    {
        if line[i] == 61 {
            return i;
        }
        i += 1;
    }
    i
}

/// Whether `line[start..end]` is exactly `expected`.
fn bytes_match(line: &[u8], start: usize, end: usize, expected: &[u8]) -> (r: bool)
    requires
        start <= end <= line@.len(),
    ensures
        r == (line@.subrange(start as int, end as int) == expected@),
{
    if end - start != expected.len() {
        return false;
    }
    let mut k: usize = 0;
    while k < expected.len()
        invariant
            end - start == expected@.len(),
            start <= end <= line@.len(),
            k <= expected@.len(),
            forall|j: int| 0 <= j < k ==> line@[start + j] == expected@[j],
        decreases expected@.len() - k,
    {
        if line[start + k] != expected[k] {
            assert(line@.subrange(start as int, end as int)[k as int] != expected@[k as int]);
            return false;
        }
        k += 1;
    }
    assert(line@.subrange(start as int, end as int) =~= expected@);
    true
}

/// A prefix of a digit string never writes a larger number than the whole.
proof fn lemma_decimal_prefix(d: Seq<u8>, k: int)
    requires
        0 <= k <= d.len(),
    ensures
        decimal(d.take(k)) <= decimal(d),
    decreases d.len(),
{
    if k < d.len() {
        assert(d.drop_last().take(k) =~= d.take(k));
        lemma_decimal_prefix(d.drop_last(), k);
    } else {
        assert(d.take(k) =~= d);
    }
}

/// The number written in decimal by `line[start..]`.
fn parse_number(line: &[u8], start: usize) -> (r: Option<u64>)
    requires
        start <= line@.len(),
    ensures
        r == number_of(line@.skip(start as int)),
{
    let ghost v = line@.skip(start as int);
    let mut i: usize = start;
    if i < line.len() && line[i] == 43 {
        i += 1;
    }
    let ghost d = line@.skip(i as int);
    assert(d =~= digits_of(v));
    if i == line.len() {
        return None;
    }
    let first = i;
    let mut acc: u64 = 0;
    while i < line.len()
        invariant
            first <= i <= line@.len(),
            d == line@.skip(first as int),
            d == digits_of(v),
            v == line@.skip(start as int),
            forall|k: int| first <= k < i ==> is_digit(#[trigger] line@[k]),
            acc == decimal(line@.subrange(first as int, i as int)),
        decreases line@.len() - i,
    {
        let b = line[i];
        if b < 48 || b > 57 {
            assert(d[i - first] == line@[i as int]);
            assert(!is_digit(d[i - first]));

            return None;
        }
        let digit = (b - 48) as u64;
        let ghost next = line@.subrange(first as int, i + 1);
        assert(next.drop_last() =~= line@.subrange(first as int, i as int));
        if acc > (u64::MAX - digit) / 10 {
            proof {
                assert(acc * 10 + digit > u64::MAX) by (nonlinear_arith)
                    requires
                        acc > (u64::MAX - digit) / 10,
                        digit <= 9,
                ;
                assert(next.last() == b);
                assert(decimal(next) == acc * 10 + digit);
                assert(d.take(i + 1 - first) =~= next);
                lemma_decimal_prefix(d, i + 1 - first);

            }
            return None;
        }
        acc = acc * 10 + digit;
        i += 1;
    }
    assert(line@.subrange(first as int, i as int) =~= d);
    Some(acc)
}

/// An incremental reader of the progress protocol: bytes go in as they
/// arrive, completed records come out.
pub struct ProgressParser {
    current: Progress,
    pending: Vec<u8>,
}

impl ProgressParser {
    /// The record being built.
    pub closed spec fn record(&self) -> Progress {
        self.current
    }

    /// The bytes of the line that has not been terminated yet.
    pub closed spec fn pending(&self) -> Seq<u8> {
        self.pending@
    }

    /// A parser at the start of a stream.
    pub fn new() -> (r: ProgressParser)
        ensures
            r.record() == empty_progress(),
            r.pending() == Seq::<u8>::empty(),
    {
        ProgressParser { current: Progress::new(), pending: Vec::new() }
    }

    /// Applies one complete line to the record being built, and returns the
    /// record that it completes, if any.
    fn apply(&mut self, line: &[u8]) -> (e: Option<Progress>)
        ensures
            (final(self).current, e) == apply_line(old(self).current, line@),
            final(self).pending == old(self).pending,
    {
        let eq = find_eq(line);
        if eq >= line.len() {
            return None;
        }
        assert(line@.subrange(0, eq as int) =~= key_of(line@));
        if bytes_match(line, 0, eq, "progress".as_bytes()) {
            let done = self.current;
            self.current = Progress::new();
            Some(done)
        } else if bytes_match(line, 0, eq, "total_size".as_bytes()) {
            assert(line@.skip(eq + 1) =~= value_of(line@));
            match parse_number(line, eq + 1) {
                Some(n) => {
                    self.current = Progress { total_size: Some(n) };
                },
                None => {},
            }
            None
        } else {
            None
        }
    }

    /// Takes in the next bytes of the stream and returns the records that
    /// they complete, in order. A line ends at `\n`; a `\r` before it is
    /// not part of the line.
    pub fn feed(&mut self, data: &[u8]) -> (out: Vec<Progress>)
        ensures
            (final(self).record(), final(self).pending(), out@) == feed_spec(
                old(self).record(),
                old(self).pending(),
                data@,
            ),
    {
        let mut out: Vec<Progress> = Vec::new();
        let mut i: usize = 0;
        while i < data.len()
            invariant
                i <= data@.len(),
                (self.current, self.pending@, out@) == feed_spec(
                    old(self).current,
                    old(self).pending@,
                    data@.take(i as int),
                ),
            decreases data@.len() - i,
        {
            let b = data[i];
            assert(data@.take(i + 1).drop_last() =~= data@.take(i as int));
            if b == 10 {
                let mut line: Vec<u8> = Vec::new();
                std::mem::swap(&mut line, &mut self.pending);
                let n = line.len();
                if n > 0 && line[n - 1] == 13 {
                    line.pop();
                }
                assert(line@ =~= strip_cr(feed_spec(old(self).current, old(self).pending@, data@.take(i as int)).1));
                let e = self.apply(line.as_slice());
                match e {
                    Some(p) => out.push(p),
                    None => {},
                }
            } else {
                self.pending.push(b);
            }
            i += 1;
        }
        assert(data@.take(data@.len() as int) =~= data@);
        out
    }

    /// Ends the stream: an unterminated last line is applied as if it were
    /// terminated, and the record that it completes, if any, is returned.
    pub fn finish(&mut self) -> (e: Option<Progress>)
        ensures
            final(self).pending() == Seq::<u8>::empty(),
            old(self).pending().len() == 0 ==> e is None && final(self).record() == old(self).record(),
            old(self).pending().len() > 0 ==> (final(self).record(), e) == apply_line(
                old(self).record(),
                strip_cr(old(self).pending()),
            ),
    {
        if self.pending.len() == 0 {
            return None;
        }
        let mut line: Vec<u8> = Vec::new();
        std::mem::swap(&mut line, &mut self.pending);
        let n = line.len();
        if line[n - 1] == 13 {
            line.pop();
        }
        assert(line@ =~= strip_cr(old(self).pending@));
        self.apply(line.as_slice())
    }
}

} // verus!
