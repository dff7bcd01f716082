//! Incremental RESP parsing, specified first.
//!
//! The `sp_*` functions are the mathematical parser: given the unread bytes
//! they either find a value and say how many bytes it took (`Found`), need
//! more input (`More`), or reject the stream (`Bad`). The executable parser
//! in `stream` is proved to return exactly what these functions say.

use vstd::prelude::*;

use crate::decimal::{digits_val, is_digit};
use crate::resp::ValueModel;

verus! {

/// Outcome of parsing a prefix of a byte stream: a result together with the
/// number of bytes consumed, a request for more input, or a protocol error.
pub enum Step<T> {
    Found(T, int),
    More,
    Bad,
}

/// The suffix of `s` from index `n` on; empty when `n` is out of range.
pub open spec fn tail(s: Seq<u8>, n: int) -> Seq<u8> {
    if 0 <= n <= s.len() {
        s.subrange(n, s.len() as int)
    } else {
        Seq::empty()
    }
}

pub proof fn lemma_tail_tail(s: Seq<u8>, a: int, b: int)
    requires
        0 <= a,
        0 <= b,
        a + b <= s.len(),
    ensures
        tail(tail(s, a), b) =~= tail(s, a + b),
{
}

/// Scan up to the first carriage return; the payload before it.
pub open spec fn sp_until_cr(s: Seq<u8>) -> Step<Seq<u8>>
    decreases s.len(),
{
    if s.len() == 0 {
        Step::More
    } else if s[0] == 13 {
        Step::Found(Seq::empty(), 0)
    } else {
        match sp_until_cr(tail(s, 1)) {
            Step::Found(b, n) => Step::Found(seq![s[0]] + b, n + 1),
            Step::More => Step::More,
            Step::Bad => Step::Bad,
        }
    }
}

/// Scan up to the first byte that is not an ASCII digit.
pub open spec fn sp_scan_digits(s: Seq<u8>) -> Step<Seq<u8>>
    decreases s.len(),
{
    if s.len() == 0 {
        Step::More
    } else if !is_digit(s[0]) {
        Step::Found(Seq::empty(), 0)
    } else {
        match sp_scan_digits(tail(s, 1)) {
            Step::Found(b, n) => Step::Found(seq![s[0]] + b, n + 1),
            Step::More => Step::More,
            Step::Bad => Step::Bad,
        }
    }
}

/// A carriage return followed by a line feed.
pub open spec fn sp_crlf(s: Seq<u8>) -> Step<()> {
    if s.len() == 0 {
        Step::More
    } else if s[0] != 13 {
        Step::Bad
    } else if s.len() == 1 {
        Step::More
    } else if s[1] != 10 {
        Step::Bad
    } else {
        Step::Found((), 2)
    }
}

/// A payload up to and including its CRLF terminator.
pub open spec fn sp_line(s: Seq<u8>) -> Step<Seq<u8>> {
    match sp_until_cr(s) {
        Step::Found(b, n) => match sp_crlf(tail(s, n)) {
            Step::Found(u, m) => Step::Found(b, n + 2),
            Step::More => Step::More,
            Step::Bad => Step::Bad,
        },
        Step::More => Step::More,
        Step::Bad => Step::Bad,
    }
}

/// A signed decimal number: an optional sign, then digits whose magnitude
/// must fit in a 64-bit signed integer. The terminator is not consumed.
pub open spec fn sp_number(s: Seq<u8>) -> Step<int> {
    if s.len() == 0 {
        Step::More
    } else if s[0] != 43 && s[0] != 45 && !is_digit(s[0]) {
        Step::Bad
    } else {
        let neg = s[0] == 45;
        let off: int = if s[0] == 43 || s[0] == 45 {
            1
        } else {
            0
        };
        match sp_scan_digits(tail(s, off)) {
            Step::Found(ds, n) => {
                if ds.len() == 0 {
                    Step::Bad
                } else if digits_val(ds) > i64::MAX {
                    Step::Bad
                } else {
                    Step::Found(
                        if neg {
                            -(digits_val(ds) as int)
                        } else {
                            digits_val(ds) as int
                        },
                        off + n,
                    )
                }
            },
            Step::More => Step::More,
            Step::Bad => Step::Bad,
        }
    }
}

/// A number followed by CRLF, as in bulk-string and array headers.
pub open spec fn sp_number_line(s: Seq<u8>) -> Step<int> {
    match sp_number(s) {
        Step::Found(v, n) => match sp_crlf(tail(s, n)) {
            Step::Found(u, m) => Step::Found(v, n + 2),
            Step::More => Step::More,
            Step::Bad => Step::Bad,
        },
        Step::More => Step::More,
        Step::Bad => Step::Bad,
    }
}

/// One complete RESP value at the head of the stream.
pub open spec fn sp_value(s: Seq<u8>) -> Step<ValueModel>
    decreases s.len(), 0int, 0int,
{
    if s.len() == 0 {
        Step::More
    } else if s[0] == 43 {
        match sp_line(tail(s, 1)) {
            Step::Found(b, n) => Step::Found(ValueModel::SimpleString(b), 1 + n),
            Step::More => Step::More,
            Step::Bad => Step::Bad,
        }
    } else if s[0] == 45 {
        match sp_line(tail(s, 1)) {
            Step::Found(b, n) => Step::Found(ValueModel::SimpleError(b), 1 + n),
            Step::More => Step::More,
            Step::Bad => Step::Bad,
        }
    } else if s[0] == 58 {
        match sp_number_line(tail(s, 1)) {
            Step::Found(v, n) => Step::Found(ValueModel::Integer(v), 1 + n),
            Step::More => Step::More,
            Step::Bad => Step::Bad,
        }
    } else if s[0] == 36 {
        match sp_number_line(tail(s, 1)) {
            Step::Found(len, n) => {
                if len == -1 {
                    Step::Found(ValueModel::NullBulkString, 1 + n)
                } else if len < 0 {
                    Step::Bad
                } else {
                    let body = tail(s, 1 + n);
                    if body.len() < len {
                        Step::More
                    } else {
                        match sp_crlf(tail(body, len)) {
                            Step::Found(u, m) => Step::Found(
                                ValueModel::BulkString(body.subrange(0, len)),
                                1 + n + len + 2,
                            ),
                            Step::More => Step::More,
                            Step::Bad => Step::Bad,
                        }
                    }
                }
            },
            Step::More => Step::More,
            Step::Bad => Step::Bad,
        }
    } else if s[0] == 42 {
        match sp_number_line(tail(s, 1)) {
            Step::Found(count, n) => {
                if count == -1 {
                    Step::Found(ValueModel::NullArray, 1 + n)
                } else if count < 0 {
                    Step::Bad
                } else {
                    match sp_elements(tail(s, 1 + n), count) {
                        Step::Found(vs, m) => Step::Found(ValueModel::Array(vs), 1 + n + m),
                        Step::More => Step::More,
                        Step::Bad => Step::Bad,
                    }
                }
            },
            Step::More => Step::More,
            Step::Bad => Step::Bad,
        }
    } else {
        Step::Bad
    }
}

/// `count` consecutive RESP values.
pub open spec fn sp_elements(s: Seq<u8>, count: int) -> Step<Seq<ValueModel>>
    decreases s.len(), 1int, count,
{
    if count <= 0 {
        Step::Found(Seq::empty(), 0)
    } else {
        match sp_value(s) {
            Step::Found(v, n) => {
                match sp_elements(tail(s, n), count - 1) {
                    Step::Found(vs, m) => Step::Found(seq![v] + vs, n + m),
                    Step::More => Step::More,
                    Step::Bad => Step::Bad,
                }
            },
            Step::More => Step::More,
            Step::Bad => Step::Bad,
        }
    }
}

/// An RDB snapshot frame: `$`, a length, CRLF, then that many raw bytes
/// with no trailing CRLF.
pub open spec fn sp_rdb(s: Seq<u8>) -> Step<Seq<u8>> {
    if s.len() == 0 {
        Step::More
    } else if s[0] != 36 {
        Step::Bad
    } else {
        match sp_number_line(tail(s, 1)) {
            Step::Found(len, n) => {
                if len < 0 {
                    Step::Bad
                } else {
                    let body = tail(s, 1 + n);
                    if body.len() < len {
                        Step::More
                    } else {
                        Step::Found(body.subrange(0, len), 1 + n + len)
                    }
                }
            },
            Step::More => Step::More,
            Step::Bad => Step::Bad,
        }
    }
}

/// Whatever a scan finds lies within the input: the payload is the consumed
/// prefix and the stop byte sits right after it.
pub proof fn lemma_scan_bounds(s: Seq<u8>)
    ensures
        sp_until_cr(s) matches Step::Found(b, n) ==> 0 <= n < s.len() && b =~= s.subrange(0, n)
            && s[n] == 13 && (forall|j: int| 0 <= j < n ==> s[j] != 13),
        sp_scan_digits(s) matches Step::Found(b, n) ==> 0 <= n < s.len() && b =~= s.subrange(0, n)
            && !is_digit(s[n]) && (forall|j: int| 0 <= j < n ==> is_digit(s[j])),
    decreases s.len(),
{
    if s.len() > 0 {
        lemma_scan_bounds(tail(s, 1));
        if s[0] != 13 {
            if let Step::Found(b0, n0) = sp_until_cr(tail(s, 1)) {
                assert(seq![s[0]] + b0 =~= s.subrange(0, n0 + 1));
                assert(forall|j: int| 0 < j < n0 + 1 ==> s[j] == tail(s, 1)[j - 1]);
            }
        }
        if is_digit(s[0]) {
            if let Step::Found(b0, n0) = sp_scan_digits(tail(s, 1)) {
                assert(seq![s[0]] + b0 =~= s.subrange(0, n0 + 1));
                assert(forall|j: int| 0 < j < n0 + 1 ==> s[j] == tail(s, 1)[j - 1]);
            }
        }
    }
}

/// A found value consumes at least one and at most all of the input bytes.
pub proof fn lemma_value_bounds(s: Seq<u8>)
    ensures
        sp_value(s) matches Step::Found(v, n) ==> 1 <= n <= s.len(),
    decreases s.len(), 0int, 0int,
{
    if s.len() > 0 {
        lemma_scan_bounds(tail(s, 1));
        if s[0] == 42 {
            if let Step::Found(count, n) = sp_number_line(tail(s, 1)) {
                lemma_number_line_bounds(tail(s, 1));
                if count >= 0 {
                    lemma_elements_bounds(tail(s, 1 + n), count);
                }
            }
        } else if s[0] == 36 {
            if let Step::Found(len, n) = sp_number_line(tail(s, 1)) {
                lemma_number_line_bounds(tail(s, 1));
            }
        } else if s[0] == 43 || s[0] == 45 {
            lemma_line_bounds(tail(s, 1));
        } else if s[0] == 58 {
            lemma_number_line_bounds(tail(s, 1));
        }
    }
}

/// A found line consumes at least two and at most all of the input bytes.
pub proof fn lemma_line_bounds(s: Seq<u8>)
    ensures
        sp_line(s) matches Step::Found(b, n) ==> 2 <= n <= s.len() && b =~= s.subrange(0, n - 2),
{
    lemma_scan_bounds(s);
}

/// A found number line consumes at least three bytes (one digit and CRLF).
pub proof fn lemma_number_line_bounds(s: Seq<u8>)
    ensures
        sp_number_line(s) matches Step::Found(v, n) ==> 3 <= n <= s.len(),
{
    lemma_scan_bounds(s);
    assert(tail(s, 0) =~= s);
    assert(tail(s, 0) == s);
    if s.len() > 0 {
        lemma_scan_bounds(tail(s, 1));
    }
    if let Step::Found(v, n) = sp_number(s) {
        assert(1 <= n <= s.len() - 1);
    }
}

/// Found elements consume at most all of the input bytes.
pub proof fn lemma_elements_bounds(s: Seq<u8>, count: int)
    ensures
        sp_elements(s, count) matches Step::Found(vs, m) ==> 0 <= m <= s.len() && vs.len() == (
        if count <= 0 {
            0
        } else {
            count
        }),
    decreases s.len(), 1int, count,
{
    if count > 0 {
        lemma_value_bounds(s);
        if let Step::Found(v, n) = sp_value(s) {
            lemma_elements_bounds(tail(s, n), count - 1);
        }
    }
}

} // verus!
