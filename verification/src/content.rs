use vstd::prelude::*;
use vstd::string::StrSliceExecFns;
use vstd::utf8::encode_utf8;

verus! {

/// One styled text fragment of a display line. The display length of a span
/// is its number of characters; byte length plays no part in budgeting.
#[derive(Debug)]
pub struct Span {
    text: String,
}

impl View for Span {
    type V = Seq<char>;

    closed spec fn view(&self) -> Seq<char> {
        self.text@
    }
}

impl Span {
    pub fn new(text: String) -> (s: Span)
        ensures
            s@ == text@,
    {
        Span { text }
    }

    /// The display length of this span, in character-grid cells.
    pub fn len(&self) -> (n: usize)
        ensures
            n == self@.len(),
    {
        self.text.as_str().unicode_len()
    }

    /// An equal copy of this span.
    pub fn duplicate(&self) -> (s: Span)
        ensures
            s@ == self@,
    {
        Span { text: self.text.clone() }
    }

    /// Append this span's UTF-8 bytes to `buffer`.
    pub fn render(&self, buffer: &mut Vec<u8>)
        ensures
            final(buffer)@ == old(buffer)@ + encode_utf8(self@),
    {
        let mut bytes = self.text.as_str().as_bytes_vec();
        buffer.append(&mut bytes);
    }
}

/// The display length of a line: the sum of its spans' display lengths.
pub open spec fn line_len(line: Seq<Seq<char>>) -> nat
    decreases line.len(),
{
    if line.len() == 0 {
        0
    } else {
        line[0].len() + line_len(line.drop_first())
    }
}

/// The bytes of a line's spans, concatenated in order.
pub open spec fn spans_bytes(line: Seq<Seq<char>>) -> Seq<u8>
    decreases line.len(),
{
    if line.len() == 0 {
        Seq::empty()
    } else {
        encode_utf8(line[0]) + spans_bytes(line.drop_first())
    }
}

/// The byte image of one rendered row: its spans' bytes followed by a newline.
pub open spec fn line_bytes(line: Seq<Seq<char>>) -> Seq<u8> {
    spans_bytes(line) + seq![10u8]
}

/// The total display length of a buffer of lines.
pub open spec fn total_len(lines: Seq<Seq<Seq<char>>>) -> nat
    decreases lines.len(),
{
    if lines.len() == 0 {
        0
    } else {
        line_len(lines[0]) + total_len(lines.drop_first())
    }
}

/// The byte image of a buffer of lines, row after row.
pub open spec fn lines_bytes(lines: Seq<Seq<Seq<char>>>) -> Seq<u8>
    decreases lines.len(),
{
    if lines.len() == 0 {
        Seq::empty()
    } else {
        line_bytes(lines[0]) + lines_bytes(lines.drop_first())
    }
}

pub proof fn lemma_line_len_push(line: Seq<Seq<char>>, span: Seq<char>)
    ensures
        line_len(line.push(span)) == line_len(line) + span.len(),
    decreases line.len(),
{
    if line.len() == 0 {
        assert(line.push(span).drop_first() =~= line);
    } else {
        assert(line.push(span).drop_first() =~= line.drop_first().push(span));
        lemma_line_len_push(line.drop_first(), span);
    }
}

pub proof fn lemma_spans_bytes_push(line: Seq<Seq<char>>, span: Seq<char>)
    ensures
        spans_bytes(line.push(span)) == spans_bytes(line) + encode_utf8(span),
    decreases line.len(),
{
    if line.len() == 0 {
        assert(line.push(span).drop_first() =~= line);
        assert(spans_bytes(line.push(span)) =~= spans_bytes(line) + encode_utf8(span));
    } else {
        assert(line.push(span).drop_first() =~= line.drop_first().push(span));
        lemma_spans_bytes_push(line.drop_first(), span);
        assert(spans_bytes(line.push(span)) =~= spans_bytes(line) + encode_utf8(span));
    }
}

pub proof fn lemma_total_len_push(lines: Seq<Seq<Seq<char>>>, line: Seq<Seq<char>>)
    ensures
        total_len(lines.push(line)) == total_len(lines) + line_len(line),
    decreases lines.len(),
{
    if lines.len() == 0 {
        assert(lines.push(line).drop_first() =~= lines);
    } else {
        assert(lines.push(line).drop_first() =~= lines.drop_first().push(line));
        lemma_total_len_push(lines.drop_first(), line);
    }
}

pub proof fn lemma_lines_bytes_push(lines: Seq<Seq<Seq<char>>>, line: Seq<Seq<char>>)
    ensures
        lines_bytes(lines.push(line)) == lines_bytes(lines) + line_bytes(line),
    decreases lines.len(),
{
    if lines.len() == 0 {
        assert(lines.push(line).drop_first() =~= lines);
        assert(lines_bytes(lines.push(line)) =~= lines_bytes(lines) + line_bytes(line));
    } else {
        assert(lines.push(line).drop_first() =~= lines.drop_first().push(line));
        lemma_lines_bytes_push(lines.drop_first(), line);
        assert(lines_bytes(lines.push(line)) =~= lines_bytes(lines) + line_bytes(line));
    }
}

/// A line's display length splits at any index.
pub proof fn lemma_line_len_split(line: Seq<Seq<char>>, i: int)
    requires
        0 <= i <= line.len(),
    ensures
        line_len(line) == line_len(line.take(i)) + line_len(line.skip(i)),
    decreases i,
{
    if i == 0 {
        assert(line.take(0) =~= Seq::<Seq<char>>::empty());
        assert(line.skip(0) =~= line);
    } else {
        lemma_line_len_split(line, i - 1);
        assert(line.take(i) =~= line.take(i - 1).push(line[i - 1]));
        lemma_line_len_push(line.take(i - 1), line[i - 1]);
        assert(line.skip(i - 1) =~= seq![line[i - 1]] + line.skip(i));
        assert(line.skip(i - 1).drop_first() =~= line.skip(i));
        assert(line_len(line.skip(i - 1)) == line[i - 1].len() + line_len(line.skip(i)));
    }
}

/// A buffer's total display length splits at any index.
pub proof fn lemma_total_len_split(lines: Seq<Seq<Seq<char>>>, i: int)
    requires
        0 <= i <= lines.len(),
    ensures
        total_len(lines) == total_len(lines.take(i)) + total_len(lines.skip(i)),
    decreases i,
{
    if i == 0 {
        assert(lines.take(0) =~= Seq::<Seq<Seq<char>>>::empty());
        assert(lines.skip(0) =~= lines);
    } else {
        lemma_total_len_split(lines, i - 1);
        assert(lines.take(i) =~= lines.take(i - 1).push(lines[i - 1]));
        lemma_total_len_push(lines.take(i - 1), lines[i - 1]);
        assert(lines.skip(i - 1) =~= seq![lines[i - 1]] + lines.skip(i));
        assert(lines.skip(i - 1).drop_first() =~= lines.skip(i));
        assert(total_len(lines.skip(i - 1)) == line_len(lines[i - 1]) + total_len(lines.skip(i)));
    }
}

/// One row of styled text: an ordered sequence of spans with a cumulative
/// display length.
#[derive(Debug)]
pub struct Line {
    spans: Vec<Span>,
}

impl View for Line {
    type V = Seq<Seq<char>>;

    closed spec fn view(&self) -> Seq<Seq<char>> {
        self.spans@.map_values(|s: Span| s@)
    }
}

impl Line {
    pub fn new() -> (l: Line)
        ensures
            l@ =~= Seq::<Seq<char>>::empty(),
    {
        Line { spans: Vec::new() }
    }

    pub fn from_text(text: String) -> (l: Line)
        ensures
            l@ =~= seq![text@],
    {
        let mut spans: Vec<Span> = Vec::new();
        spans.push(Span::new(text));
        Line { spans }
    }

    pub fn push_span(&mut self, span: Span)
        ensures
            final(self)@ =~= old(self)@.push(span@),
    {
        self.spans.push(span);
    }

    /// The display length of this line.
    pub fn len(&self) -> (n: usize)
        requires
            line_len(self@) <= usize::MAX,
        ensures
            n == line_len(self@),
    {
        let mut acc: usize = 0;
        let mut j: usize = 0;
        while j < self.spans.len()
            invariant
                j <= self.spans.len(),
                line_len(self@) <= usize::MAX,
                acc == line_len(self@.take(j as int)),
            decreases self.spans.len() - j,
        {
            proof {
                lemma_line_len_split(self@, j as int);
                lemma_line_len_split(self@.skip(j as int), 1);
                assert(self@.skip(j as int).take(1) =~= seq![self@[j as int]]);
                assert(seq![self@[j as int]].drop_first() =~= Seq::<Seq<char>>::empty());
                assert(line_len(seq![self@[j as int]]) == self@[j as int].len());
                assert(self@.skip(j as int).skip(1) =~= self@.skip(j as int + 1));
                lemma_line_len_split(self@, j as int + 1);
                assert(self@.take(j as int + 1) =~= self@.take(j as int).push(self@[j as int]));
                lemma_line_len_push(self@.take(j as int), self@[j as int]);
            }
            let w = self.spans[j].len();
            acc = acc + w;
            j = j + 1;
        }
        proof {
            assert(self@.take(self.spans.len() as int) =~= self@);
        }
        acc
    }

    /// An equal copy of this line.
    pub fn duplicate(&self) -> (l: Line)
        ensures
            l@ == self@,
    {
        let mut spans: Vec<Span> = Vec::new();
        let mut j: usize = 0;
        while j < self.spans.len()
            invariant
                j <= self.spans.len(),
                spans@.map_values(|s: Span| s@) =~= self@.take(j as int),
            decreases self.spans.len() - j,
        {
            let span = self.spans[j].duplicate();
            let ghost pre = spans@;
            spans.push(span);
            proof {
                assert(pre.len() == (pre.map_values(|s: Span| s@)).len());
                assert(pre.len() == j);
                assert(spans@.len() == j + 1);
                assert forall|x: int| 0 <= x < j + 1 implies (spans@.map_values(
                    |s: Span| s@,
                ))[x] == #[trigger] self@.take(j as int + 1)[x] by {
                    if x < j {
                        assert((pre.map_values(|s: Span| s@))[x] == self@.take(j as int)[x]);
                    } else {
                        assert(spans@[x] == span);
                        assert(self@[x] == self.spans@[x]@);
                    }
                }
                assert(spans@.map_values(|s: Span| s@) =~= self@.take(j as int + 1));
            }
            j = j + 1;
        }
        let l = Line { spans };
        proof {
            assert(l@ =~= self@);
        }
        l
    }

    /// Append this row's byte image (spans' bytes, then a newline) to `buffer`.
    pub fn render(&self, buffer: &mut Vec<u8>)
        ensures
            final(buffer)@ == old(buffer)@ + line_bytes(self@),
    {
        let mut j: usize = 0;
        while j < self.spans.len()
            invariant
                j <= self.spans.len(),
                buffer@ == old(buffer)@ + spans_bytes(self@.take(j as int)),
            decreases self.spans.len() - j,
        {
            self.spans[j].render(buffer);
            proof {
                assert(self@.take(j as int + 1) =~= self@.take(j as int).push(self@[j as int]));
                lemma_spans_bytes_push(self@.take(j as int), self@[j as int]);
            }
            j = j + 1;
        }
        buffer.push(10u8);
        proof {
            assert(self@.take(self.spans.len() as int) =~= self@);
            assert(old(buffer)@ + spans_bytes(self@) + seq![10u8] =~= old(buffer)@ + line_bytes(self@));
        }
    }
}

/// An ordered, appendable buffer of display lines: the unit in which log
/// output is queued and drained.
#[derive(Debug)]
pub struct Lines(pub Vec<Line>);

impl View for Lines {
    type V = Seq<Seq<Seq<char>>>;

    open spec fn view(&self) -> Seq<Seq<Seq<char>>> {
        self.0@.map_values(|l: Line| l@)
    }
}

impl Lines {
    pub fn new() -> (l: Lines)
        ensures
            l@ =~= Seq::<Seq<Seq<char>>>::empty(),
    {
        Lines(Vec::new())
    }

    /// The number of queued lines.
    pub fn len(&self) -> (n: usize)
        ensures
            n == self@.len(),
    {
        self.0.len()
    }

    pub fn is_empty(&self) -> (r: bool)
        ensures
            r == (self@.len() == 0),
    {
        self.0.len() == 0
    }

    pub fn push(&mut self, line: Line)
        ensures
            final(self)@ =~= old(self)@.push(line@),
    {
        self.0.push(line);
    }

    /// An equal copy of this buffer.
    pub fn duplicate(&self) -> (l: Lines)
        ensures
            l@ == self@,
    {
        let mut lines: Vec<Line> = Vec::new();
        let mut i: usize = 0;
        while i < self.0.len()
            invariant
                i <= self.0.len(),
                lines@.map_values(|l: Line| l@) =~= self@.take(i as int),
            decreases self.0.len() - i,
        {
            let line = self.0[i].duplicate();
            let ghost pre = lines@;
            lines.push(line);
            proof {
                assert(pre.len() == (pre.map_values(|l: Line| l@)).len());
                assert(pre.len() == i);
                assert(lines@.len() == i + 1);
                assert forall|x: int| 0 <= x < i + 1 implies (lines@.map_values(
                    |l: Line| l@,
                ))[x] == #[trigger] self@.take(i as int + 1)[x] by {
                    if x < i {
                        assert((pre.map_values(|l: Line| l@))[x] == self@.take(i as int)[x]);
                    } else {
                        assert(lines@[x] == line);
                        assert(self@[x] == self.0@[x]@);
                    }
                }
                assert(lines@.map_values(|l: Line| l@) =~= self@.take(i as int + 1));
            }
            i = i + 1;
        }
        let l = Lines(lines);
        proof {
            assert(l@ =~= self@);
        }
        l
    }

    /// Whether the total display length of all queued lines exceeds `budget`.
    pub fn exceeds(&self, budget: usize) -> (r: bool)
        ensures
            r == (total_len(self@) > budget),
    {
        let mut acc: usize = 0;
        let mut i: usize = 0;
        while i < self.0.len()
            invariant
                i <= self.0.len(),
                acc <= budget,
                acc == total_len(self@.take(i as int)),
            decreases self.0.len() - i,
        {
            let line = &self.0[i];
            let mut j: usize = 0;
            while j < line.spans.len()
                invariant
                    i < self.0.len(),
                    j <= line.spans.len(),
                    line@ == self@[i as int],
                    acc <= budget,
                    acc == total_len(self@.take(i as int)) + line_len(line@.take(j as int)),
                decreases line.spans.len() - j,
            {
                let w = line.spans[j].len();
                proof {
                    assert(line@[j as int] == line.spans@[j as int]@);
                }
                if w > budget - acc {
                    proof {
                        lemma_exceeds_early(self@, line@, i as int, j as int);
                    }
                    return true;
                }
                proof {
                    assert(line@.take(j as int + 1) =~= line@.take(j as int).push(line@[j as int]));
                    lemma_line_len_push(line@.take(j as int), line@[j as int]);
                }
                acc = acc + w;
                j = j + 1;
            }
            proof {
                assert(line@.take(line.spans.len() as int) =~= line@);
                assert(self@.take(i as int + 1) =~= self@.take(i as int).push(self@[i as int]));
                lemma_total_len_push(self@.take(i as int), self@[i as int]);
                assert(self@[i as int] == line@);
            }
            i = i + 1;
        }
        proof {
            assert(self@.take(self.0.len() as int) =~= self@);
        }
        false
    }

    /// Write queued lines into `buffer` and remove exactly the written lines
    /// from the front. `None` drains every remaining line; `Some(limit)`
    /// drains the oldest `min(limit, remaining)` lines, preserving the tail.
    pub fn render(&mut self, buffer: &mut Vec<u8>, limit: Option<usize>)
        ensures
            ({
                let k = drained_count(old(self)@.len(), limit);
                &&& final(self)@ == old(self)@.skip(k as int)
                &&& final(buffer)@ == old(buffer)@ + lines_bytes(old(self)@.take(k as int))
            }),
    {
        let k = self.render_prefix(buffer, limit);
        self.drop_front(k);
    }

    /// Write the oldest `min(limit, remaining)` lines into `buffer` (all of
    /// them for `None`) without removing anything, and say how many were
    /// written. Pairs with [`Self::drop_front`] to commit the drain once the
    /// written bytes have actually reached their destination.
    pub fn render_prefix(&self, buffer: &mut Vec<u8>, limit: Option<usize>) -> (k: usize)
        ensures
            k == drained_count(self@.len(), limit),
            final(buffer)@ == old(buffer)@ + lines_bytes(self@.take(k as int)),
    {
        let k: usize = match limit {
            Option::None => self.0.len(),
            Option::Some(l) => if l < self.0.len() {
                l
            } else {
                self.0.len()
            },
        };
        proof {
            assert(self.0@.len() == self@.len());
        }
        let mut i: usize = 0;
        while i < k
            invariant
                i <= k,
                k <= self.0@.len(),
                self.0@.len() == self@.len(),
                buffer@ == old(buffer)@ + lines_bytes(self@.take(i as int)),
            decreases k - i,
        {
            proof {
                assert(self@[i as int] == self.0@[i as int]@);
            }
            self.0[i].render(buffer);
            proof {
                assert(self@.take(i as int + 1) =~= self@.take(i as int).push(self@[i as int]));
                lemma_lines_bytes_push(self@.take(i as int), self@[i as int]);
            }
            i = i + 1;
        }
        proof {
            assert(drained_count(self@.len(), limit) == k as nat);
        }
        k
    }

    /// Remove the oldest `k` lines, keeping the tail in order.
    pub fn drop_front(&mut self, k: usize)
        requires
            k <= old(self)@.len(),
        ensures
            final(self)@ == old(self)@.skip(k as int),
    {
        let ghost q0 = self@;
        let ghost v0 = self.0@;
        proof {
            assert(self.0@.len() == self@.len());
        }
        let tail = self.0.split_off(k);
        proof {
            assert forall|x: int| 0 <= x < tail@.len() implies (tail@.map_values(|l: Line| l@))[x]
                == #[trigger] q0.skip(k as int)[x] by {
                assert(tail@[x] == v0[k + x]);
                assert((v0.map_values(|l: Line| l@))[k + x] == q0[k + x]);
            }
            assert(tail@.map_values(|l: Line| l@) =~= q0.skip(k as int));
        }
        self.0 = tail;
    }
}

/// How many lines a drain with the given limit removes from a queue of
/// `queue_len` lines: all of them without a limit, else the limit clamped
/// to what is there.
pub open spec fn drained_count(queue_len: nat, limit: Option<usize>) -> nat {
    match limit {
        Option::None => queue_len,
        Option::Some(l) => if l < queue_len {
            l as nat
        } else {
            queue_len
        },
    }
}

/// A drain loses no line and invents none: the written prefix and the kept
/// tail partition the queue, in its original order.
pub proof fn lemma_drain_partitions_queue(queue: Seq<Seq<Seq<char>>>, k: nat)
    requires
        k <= queue.len(),
    ensures
        queue.take(k as int) + queue.skip(k as int) == queue,
{
    assert(queue.take(k as int) + queue.skip(k as int) =~= queue);
}

/// At the point where a running total first passes the budget, the whole
/// buffer's total passes it too.
proof fn lemma_exceeds_early(lines: Seq<Seq<Seq<char>>>, line: Seq<Seq<char>>, i: int, j: int)
    requires
        0 <= i < lines.len(),
        lines[i] == line,
        0 <= j < line.len(),
    ensures
        total_len(lines) >= total_len(lines.take(i)) + line_len(line.take(j)) + line[j].len(),
{
    lemma_total_len_split(lines, i);
    assert(lines.skip(i)[0] == lines[i]);
    assert(total_len(lines.skip(i)) == line_len(line) + total_len(lines.skip(i).drop_first()));
    lemma_line_len_split(line, j);
    lemma_line_len_split(line.skip(j), 1);
    assert(line.skip(j).take(1) =~= seq![line[j]]);
    assert(seq![line[j]].drop_first() =~= Seq::<Seq<char>>::empty());
    assert(line_len(seq![line[j]]) == line[j].len());
}

} // verus!
