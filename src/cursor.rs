use vstd::prelude::*;

verus! {

/// A cursor position reported by the terminal: row, then column, both counted from 1.
#[derive(Debug, Clone, Copy, PartialEq, Eq, Structural)]
pub struct CursorPos(pub usize, pub usize);

/// The request for the cursor position: `ESC [ 6 n`.
pub open spec fn cursor_request_seq() -> Seq<u8> {
    seq![0x1bu8, 0x5b, 0x36, 0x6e]
}

/// The bytes that ask the terminal where the cursor is.
pub fn cursor_request() -> (r: Vec<u8>)
    ensures
        r@ == cursor_request_seq(),
{
    let mut r = Vec::new();
    r.push(0x1b);
    r.push(0x5b);
    r.push(0x36);
    r.push(0x6e);
    r
}

/// The value of a string of decimal digits.
pub open spec fn digits_value(d: Seq<u8>) -> nat
    decreases d.len(),
{
    if d.len() == 0 {
        0
    } else {
        digits_value(d.drop_last()) * 10 + (d.last() - 0x30) as nat
    }
}

pub open spec fn all_digits(d: Seq<u8>) -> bool {
    forall|i: int| 0 <= i < d.len() ==> 0x30 <= #[trigger] d[i] <= 0x39
}

/// A field read as an unsigned number: an optional `+`, then at least one digit, with a
/// value that fits; anything else reads as 0.
pub open spec fn field_value(f: Seq<u8>) -> usize {
    let d = if f.len() > 0 && f[0] == 0x2b {
        f.skip(1)
    } else {
        f
    };
    if d.len() > 0 && all_digits(d) && digits_value(d) <= usize::MAX {
        digits_value(d) as usize
    } else {
        0
    }
}

/// The position of the last `b` in `s`, if any.
pub open spec fn last_index_of(s: Seq<u8>, b: u8) -> Option<int>
    decreases s.len(),
{
    if s.len() == 0 {
        None
    } else if s.last() == b {
        Some(s.len() - 1)
    } else {
        last_index_of(s.drop_last(), b)
    }
}

/// The position of the first `b` in `s`, if any.
pub open spec fn first_index_of(s: Seq<u8>, b: u8) -> Option<int>
    decreases s.len(),
{
    if s.len() == 0 {
        None
    } else if s[0] == b {
        Some(0)
    } else {
        match first_index_of(s.skip(1), b) {
            Some(i) => Some(i + 1),
            None => None,
        }
    }
}

/// The text before the first `;` (all of it when there is none), and what follows that `;`.
pub open spec fn split_field(s: Seq<u8>) -> (Seq<u8>, Option<Seq<u8>>) {
    match first_index_of(s, 0x3b) {
        Some(i) => (s.take(i), Some(s.skip(i + 1))),
        None => (s, None),
    }
}

/// The position a reply `ESC [ <row> ; <col> R` gives: the last byte is the terminator,
/// the numbers follow the last `[`, and a field that does not read as a number is 0.
pub open spec fn reply_position(reply: Seq<u8>) -> CursorPos {
    let body = if reply.len() > 0 {
        reply.drop_last()
    } else {
        reply
    };
    let coords = match last_index_of(body, 0x5b) {
        Some(j) => body.skip(j + 1),
        None => Seq::empty(),
    };
    let (row, rest) = split_field(coords);
    let col = match rest {
        Some(r) => field_value(split_field(r).0),
        None => 0,
    };
    CursorPos(field_value(row), col)
}

fn exec_field_value(f: &[u8], from: usize, to: usize) -> (r: usize)
    requires
        from <= to <= f@.len(),
    ensures
        r == field_value(f@.subrange(from as int, to as int)),
{
    let ghost whole = f@.subrange(from as int, to as int);
    let start = if from < to && f[from] == 0x2b {
        from + 1
    } else {
        from
    };
    let ghost d = f@.subrange(start as int, to as int);
    assert(from < to ==> whole[0] == f@[from as int]);
    assert(start > from ==> d =~= whole.skip(1));
    assert(start == from ==> d =~= whole);
    if start == to {
        return 0;
    }
    assert(field_value(whole) == if all_digits(d) && digits_value(d) <= usize::MAX {
        digits_value(d) as usize
    } else {
        0
    });
    let mut v: usize = 0;
    let mut i: usize = start;
    while i < to
        invariant
            start <= i <= to <= f@.len(),
            d == f@.subrange(start as int, to as int),
            d.len() > 0,
            whole == f@.subrange(from as int, to as int),
            field_value(whole) == if all_digits(d) && digits_value(d) <= usize::MAX {
                digits_value(d) as usize
            } else {
                0
            },
            all_digits(d.take(i - start)),
            v as nat == digits_value(d.take(i - start)),
        decreases to - i,
    {
        let b = f[i];
        assert(d[i - start] == b);
        if b < 0x30 || b > 0x39 {
            assert(!all_digits(d));
            return 0;
        }
        let ghost prev = d.take(i - start);
        assert(d.take(i - start + 1).drop_last() == prev);
        let digit = (b - 0x30) as usize;
        if v > (usize::MAX - digit) / 10 {
            proof {
                if all_digits(d) {
                    lemma_overflow_stays(d, (i - start + 1) as int);
                }
            }
            assert(digits_value(d.take(i - start + 1)) > usize::MAX) by (nonlinear_arith)
                requires
                    digits_value(d.take(i - start + 1)) == v * 10 + digit,
                    v > (usize::MAX - digit) / 10,
                    digit <= 9,
            ;
            return 0;
        }
        assert(v * 10 + digit <= usize::MAX) by (nonlinear_arith)
            requires
                v <= (usize::MAX - digit) / 10,
                digit <= 9,
        ;
        v = v * 10 + digit;
        i = i + 1;
        assert(all_digits(d.take(i - start))) by {
            assert forall|k: int| 0 <= k < i - start implies 0x30 <= #[trigger] d.take(
                i - start,
            )[k] <= 0x39 by {
                if k < i - start - 1 {
                    assert(d.take(i - start)[k] == prev[k]);
                }
            }
        }
    }
    assert(d.take(to - start) == d);
    v
}

/// A number never shrinks when digits are added to it.
proof fn lemma_overflow_stays(d: Seq<u8>, k: int)
    requires
        0 <= k <= d.len(),
        all_digits(d),
    ensures
        digits_value(d.take(k)) <= digits_value(d),
    decreases d.len() - k,
{
    if k == d.len() {
        assert(d.take(k) == d);
    } else {
        lemma_overflow_stays(d, k + 1);
        assert(d.take(k + 1).drop_last() == d.take(k));
        assert(d.take(k + 1).last() == d[k]);
    }
}

/// The first `b` in `s[from..to]`, as a position in `s`.
fn find_byte(s: &[u8], from: usize, to: usize, b: u8) -> (r: Option<usize>)
    requires
        from <= to <= s@.len(),
    ensures
        r == match first_index_of(s@.subrange(from as int, to as int), b) {
            Some(i) => Some((i + from) as usize),
            None => None::<usize>,
        },
        r matches Some(k) ==> from <= k < to && first_index_of(
            s@.subrange(from as int, to as int),
            b,
        ) == Some(k - from),
        r is None ==> first_index_of(s@.subrange(from as int, to as int), b) is None,
{
    let mut k = from;
    while k < to
        invariant
            from <= k <= to <= s@.len(),
            first_index_of(s@.subrange(from as int, to as int), b) == match first_index_of(
                s@.subrange(k as int, to as int),
                b,
            ) {
                Some(i) => Some(i + k - from),
                None => None::<int>,
            },
        decreases to - k,
    {
        if s[k] == b {
            return Some(k);
        }
        assert(s@.subrange(k as int, to as int).skip(1) == s@.subrange(k + 1, to as int));
        k = k + 1;
    }
    None
}

/// Reads the position out of the terminal's reply to the cursor request.
pub fn parse_cursor_reply(reply: &[u8]) -> (r: CursorPos)
    ensures
        r == reply_position(reply@),
{
    let body_len = if reply.len() > 0 {
        reply.len() - 1
    } else {
        0
    };
    let ghost body = if reply@.len() > 0 {
        reply@.drop_last()
    } else {
        reply@
    };
    assert(body == reply@.take(body_len as int));
    assert(body.take(body_len as int) == body);
    let mut j = body_len;
    while j > 0 && reply[j - 1] != 0x5b
        invariant
            j <= body_len,
            body == reply@.take(body_len as int),
            body_len <= reply@.len(),
            last_index_of(body, 0x5b) == last_index_of(body.take(j as int), 0x5b),
        decreases j,
    {
        assert(body.take(j as int).drop_last() == body.take(j - 1));
        j = j - 1;
    }
    proof {
        if j > 0 {
            assert(body.take(j as int).last() == reply@[j - 1]);
            assert(last_index_of(body, 0x5b) == Some(j - 1));
        } else {
            assert(body.take(0) =~= Seq::<u8>::empty());
            assert(last_index_of(body, 0x5b) is None);
        }
    }
    let c0 = j;
    let ghost coords = if j == 0 {
        Seq::<u8>::empty()
    } else {
        body.skip(j as int)
    };
    let c1 = if j == 0 {
        0
    } else {
        body_len
    };
    assert(coords == reply@.subrange(c0 as int, c1 as int));
    let (row, col) = match find_byte(reply, c0, c1, 0x3b) {
        None => {
            assert(split_field(coords) == (coords, None::<Seq<u8>>));
            (exec_field_value(reply, c0, c1), 0)
        },
        Some(k) => {
            assert(coords.take(k - c0) == reply@.subrange(c0 as int, k as int));
            assert(coords.skip(k - c0 + 1) == reply@.subrange(k + 1, c1 as int));
            let ghost rest = reply@.subrange(k + 1, c1 as int);
            assert(split_field(coords) == (coords.take(k - c0), Some(rest)));
            let row = exec_field_value(reply, c0, k);
            let col = match find_byte(reply, k + 1, c1, 0x3b) {
                None => {
                    assert(split_field(rest).0 == rest);
                    exec_field_value(reply, k + 1, c1)
                },
                Some(k2) => {
                    assert(split_field(rest).0 == rest.take(k2 - (k + 1)));
                    assert(reply@.subrange(k + 1, c1 as int).take(k2 - (k + 1)) == reply@.subrange(
                        k + 1,
                        k2 as int,
                    ));
                    exec_field_value(reply, k + 1, k2)
                },
            };
            (row, col)
        },
    };
    CursorPos(row, col)
}

} // verus!
