use vstd::prelude::*;
use vstd::string::StringSliceAdditionalSpecFns;
use vstd::utf8::encode_utf8;

verus! {

/// The styling reset sequence `ESC [ 0 m`.
pub open spec fn reset_seq() -> Seq<u8> {
    seq![0x1bu8, 0x5b, 0x30, 0x6d]
}

/// Erase from the cursor to the end of the screen: `ESC [ 0 J`.
pub open spec fn clear_seq() -> Seq<u8> {
    seq![0x1bu8, 0x5b, 0x30, 0x4a]
}

/// Reverse line feed: `ESC M`.
pub open spec fn reverse_line_feed() -> Seq<u8> {
    seq![0x1bu8, 0x4d]
}

/// `n` reverse line feeds in a row.
pub open spec fn lines_up(n: nat) -> Seq<u8>
    decreases n,
{
    if n == 0 {
        Seq::empty()
    } else {
        lines_up((n - 1) as nat) + reverse_line_feed()
    }
}

/// The text with every styling reset taken out, scanning from the front.
pub open spec fn strip_resets(s: Seq<u8>) -> Seq<u8>
    decreases s.len(),
{
    if s.len() == 0 {
        s
    } else if s.len() >= 4 && s.take(4) == reset_seq() {
        strip_resets(s.skip(4))
    } else {
        seq![s[0]] + strip_resets(s.skip(1))
    }
}

/// The number of newline bytes.
pub open spec fn newlines(s: Seq<u8>) -> nat
    decreases s.len(),
{
    if s.len() == 0 {
        0
    } else {
        newlines(s.drop_last()) + if s.last() == 0x0a {
            1nat
        } else {
            0nat
        }
    }
}

/// How many lines a frame moves the cursor down: one per newline; styling resets are
/// not content.
pub open spec fn frame_lines(frame: Seq<u8>) -> nat {
    newlines(strip_resets(frame))
}

/// Whether a frame leaves the cursor past the start of its last line.
pub open spec fn ends_mid_line(frame: Seq<u8>) -> bool {
    strip_resets(frame).len() > 0 && strip_resets(frame).last() != 0x0a
}

/// Carriage return: back to the first column.
pub open spec fn carriage_return() -> Seq<u8> {
    seq![0x0du8]
}

/// What a flush sends to the terminal: nothing for an empty frame; otherwise the cursor
/// goes back to the first column if the previous frame ended mid-line, up over the
/// previous frame's lines, the screen is cleared from there, and the frame is drawn.
pub open spec fn flush_bytes(pending: Seq<u8>, lines: nat, open_line: bool) -> Seq<u8> {
    if pending.len() == 0 {
        Seq::empty()
    } else {
        (if open_line {
            carriage_return()
        } else {
            Seq::empty()
        }) + lines_up(lines) + clear_seq() + pending
    }
}

/// Whether the frame remembered after a flush ended mid-line.
pub open spec fn open_after_flush(pending: Seq<u8>, open_line: bool) -> bool {
    if pending.len() == 0 {
        open_line
    } else {
        ends_mid_line(pending)
    }
}

/// The line count remembered after a flush.
pub open spec fn lines_after_flush(pending: Seq<u8>, lines: nat) -> nat {
    if pending.len() == 0 {
        lines
    } else {
        frame_lines(pending)
    }
}

/// One frame's pending text, the number of lines that the last flushed frame moved the
/// cursor down, and whether it left the cursor mid-line.
pub struct Output {
    buf: Vec<u8>,
    lines: usize,
    open_line: bool,
}

impl View for Output {
    type V = (Seq<u8>, nat, bool);

    closed spec fn view(&self) -> (Seq<u8>, nat, bool) {
        (self.buf@, self.lines as nat, self.open_line)
    }
}

impl Output {
    pub fn new() -> (r: Output)
        ensures
            r@ == (Seq::<u8>::empty(), 0nat, false),
    {
        Output { buf: Vec::new(), lines: 0, open_line: false }
    }

    /// Appends text to the pending frame.
    pub fn write(&mut self, new_data: &str)
        ensures
            final(self)@ == (old(self)@.0 + encode_utf8(new_data@), old(self)@.1, old(self)@.2),
    {
        let bytes = new_data.as_bytes();
        let mut i: usize = 0;
        while i < bytes.len()
            invariant
                i <= bytes@.len(),
                self.lines == old(self).lines,
                self.open_line == old(self).open_line,
                self.buf@ == old(self).buf@ + bytes@.take(i as int),
            decreases bytes@.len() - i,
        {
            self.buf.push(bytes[i]);
            i = i + 1;
            assert(bytes@.take(i as int) == bytes@.take(i - 1) + seq![bytes@[i - 1]]);
        }
        assert(bytes@.take(bytes@.len() as int) == bytes@);
    }

    /// Hands over the bytes that redraw the screen with the pending frame, empties the
    /// frame and remembers how many lines it took.
    pub fn flush(&mut self) -> (r: Vec<u8>)
        ensures
            r@ == flush_bytes(old(self)@.0, old(self)@.1, old(self)@.2),
            final(self)@ == (
                Seq::<u8>::empty(),
                lines_after_flush(old(self)@.0, old(self)@.1),
                open_after_flush(old(self)@.0, old(self)@.2),
            ),
    {
        let mut out: Vec<u8> = Vec::new();
        if self.buf.len() == 0 {
            return out;
        }
        if self.open_line {
            out.push(0x0d);
        }
        let ghost start = out@;
        let mut k: usize = 0;
        while k < self.lines
            invariant
                k <= self.lines,
                out@ == start + lines_up(k as nat),
            decreases self.lines - k,
        {
            out.push(0x1b);
            out.push(0x4d);
            k = k + 1;
            assert(out@ == start + lines_up(k as nat));
        }
        out.push(0x1b);
        out.push(0x5b);
        out.push(0x30);
        out.push(0x4a);
        assert(out@ == start + lines_up(self.lines as nat) + clear_seq());
        let mut i: usize = 0;
        while i < self.buf.len()
            invariant
                i <= self.buf@.len(),
                out@ == start + lines_up(self.lines as nat) + clear_seq() + self.buf@.take(i as int),
            decreases self.buf@.len() - i,
        {
            out.push(self.buf[i]);
            i = i + 1;
            assert(self.buf@.take(i as int) == self.buf@.take(i - 1) + seq![self.buf@[i - 1]]);
        }
        assert(self.buf@.take(self.buf@.len() as int) == self.buf@);
        let (lines, open_line) = count_frame_lines(&self.buf);
        self.lines = lines;
        self.open_line = open_line;
        self.buf = Vec::new();
        out
    }
}

proof fn lemma_newlines_push(s: Seq<u8>, b: u8)
    ensures
        newlines(s.push(b)) == newlines(s) + if b == 0x0a {
            1nat
        } else {
            0nat
        },
{
    assert(s.push(b).drop_last() == s);
}

proof fn lemma_newlines_bound(s: Seq<u8>)
    ensures
        newlines(s) <= s.len(),
    decreases s.len(),
{
    if s.len() > 0 {
        lemma_newlines_bound(s.drop_last());
    }
}

/// How many lines a frame moves the cursor down, and whether it ends mid-line; styling
/// resets are left out.
pub fn count_frame_lines(frame: &Vec<u8>) -> (r: (usize, bool))
    ensures
        r.0 == frame_lines(frame@),
        r.1 == ends_mid_line(frame@),
{
    let ghost kept: Seq<u8> = Seq::empty();
    let mut nl: usize = 0;
    let mut open_line = false;
    let mut i: usize = 0;
    let len = frame.len();
    assert(frame@.skip(0) == frame@);
    assert(kept + frame@ == frame@);
    while i < len
        invariant
            i <= frame@.len(),
            strip_resets(frame@) == kept + strip_resets(frame@.skip(i as int)),
            nl == newlines(kept),
            open_line == (kept.len() > 0 && kept.last() != 0x0a),
            kept.len() <= i,
            len == frame@.len(),
        decreases frame@.len() - i,
    {
        let ghost rest = frame@.skip(i as int);
        if len - i >= 4 && frame[i] == 0x1b && frame[i + 1] == 0x5b && frame[i + 2] == 0x30
            && frame[i + 3] == 0x6d {
            assert(rest.take(4) == reset_seq());
            assert(rest.skip(4) == frame@.skip(i + 4));
            i = i + 4;
        } else {
            let b = frame[i];
            assert(!(rest.len() >= 4 && rest.take(4) == reset_seq())) by {
                if rest.len() >= 4 && rest.take(4) == reset_seq() {
                    assert(rest.take(4)[0] == frame@[i as int]);
                    assert(rest.take(4)[1] == frame@[i + 1]);
                    assert(rest.take(4)[2] == frame@[i + 2]);
                    assert(rest.take(4)[3] == frame@[i + 3]);
                }
            }
            assert(rest.skip(1) == frame@.skip(i + 1));
            proof {
                lemma_newlines_push(kept, b);
                lemma_newlines_bound(kept);
                assert(kept + (seq![b] + strip_resets(rest.skip(1))) == kept.push(b) + strip_resets(
                    rest.skip(1),
                ));
                kept = kept.push(b);
            }
            if b == 0x0a {
                nl = nl + 1;
                open_line = false;
            } else {
                open_line = true;
            }
            i = i + 1;
        }
    }
    assert(frame@.skip(i as int) == Seq::<u8>::empty());
    assert(kept + Seq::<u8>::empty() == kept);
    (nl, open_line)
}

/// Once a frame has been flushed, the next flush returns to the first column if that
/// frame ended mid-line, moves up over exactly the lines that frame went down, clears
/// everything from there down, and draws the new frame: a shorter frame leaves nothing
/// of the longer one behind, and nothing above the first frame is touched.
pub proof fn lemma_redraw_replaces_previous(
    lines: nat,
    open_line: bool,
    first: Seq<u8>,
    second: Seq<u8>,
)
    requires
        first.len() > 0,
        second.len() > 0,
    ensures
        flush_bytes(second, lines_after_flush(first, lines), open_after_flush(first, open_line))
            == (if ends_mid_line(first) {
            carriage_return()
        } else {
            Seq::empty()
        }) + lines_up(frame_lines(first)) + clear_seq() + second,
        lines_after_flush(second, lines_after_flush(first, lines)) == frame_lines(second),
{
}

/// `n` reverse line feeds move the cursor up by exactly `n` lines and do nothing else.
pub proof fn lemma_lines_up_shape(n: nat)
    ensures
        lines_up(n).len() == 2 * n,
        forall|i: int| 0 <= i < n ==> #[trigger] lines_up(n).subrange(2 * i, 2 * i + 2) == reverse_line_feed(),
    decreases n,
{
    if n > 0 {
        lemma_lines_up_shape((n - 1) as nat);
        let prev = lines_up((n - 1) as nat);
        assert forall|i: int| 0 <= i < n implies #[trigger] lines_up(n).subrange(2 * i, 2 * i + 2)
            == reverse_line_feed() by {
            if i < n - 1 {
                assert(lines_up(n).subrange(2 * i, 2 * i + 2) == prev.subrange(2 * i, 2 * i + 2));
            } else {
                assert(lines_up(n).subrange(2 * i, 2 * i + 2) == reverse_line_feed());
            }
        }
    }
}

} // verus!
