//! The executable incremental RESP parser.
//!
//! `RESPStream` holds the bytes received so far and a cursor. The caller
//! feeds it raw bytes as they arrive and asks for complete values; every
//! method is proved to behave exactly as the mathematical parser in
//! `parser` says. A return of `Ok(None)` means the buffer holds only a
//! value prefix and more bytes are needed.

use vstd::prelude::*;

use crate::decimal::{digits_val, is_digit, all_digits, lemma_digits_val_push, lemma_digits_val_prefix_le};
use crate::parser::{
    Step, tail, lemma_tail_tail, sp_until_cr, sp_scan_digits, sp_crlf, sp_line, sp_number,
    sp_number_line, sp_value, sp_elements, sp_rdb, lemma_scan_bounds, lemma_value_bounds,
    lemma_number_line_bounds,
};
use crate::resp::{RESPValue, ValueModel, view_value, view_values, lemma_view_values_push};

verus! {

/// Why a byte stream was rejected.
#[derive(Debug, PartialEq, Eq, Clone, Copy)]
pub enum RespError {
    UnexpectedDataTag,
    ExpectedCarriageReturn,
    ExpectedLineFeed,
    ExpectedNumber,
    InvalidNumber,
    InvalidLength,
    ConnectionClosed,
}

/// First index at or after `from` whose byte stops the scan (the carriage
/// return itself, or the first non-digit).
pub open spec fn scan_result(s: Seq<u8>, stop_at_cr: bool) -> Step<Seq<u8>> {
    if stop_at_cr {
        sp_until_cr(s)
    } else {
        sp_scan_digits(s)
    }
}

proof fn lemma_until_cr_char(s: Seq<u8>, p: int)
    requires
        0 <= p <= s.len(),
        forall|j: int| 0 <= j < p ==> s[j] != 13,
    ensures
        p < s.len() && s[p] == 13 ==> sp_until_cr(s) == Step::<Seq<u8>>::Found(
            s.subrange(0, p),
            p,
        ),
        p == s.len() ==> sp_until_cr(s) is More,
    decreases s.len(),
{
    if s.len() > 0 && s[0] != 13 {
        let t = tail(s, 1);
        lemma_until_cr_char(t, if p > 0 { p - 1 } else { 0 });
        if p < s.len() && s[p] == 13 {
            if p == 0 {
            } else {
                assert(t[p - 1] == s[p]);
                assert(forall|j: int| 0 <= j < p - 1 ==> t[j] == s[j + 1] && s[j + 1] != 13);
                assert(sp_until_cr(t) == Step::<Seq<u8>>::Found(t.subrange(0, p - 1), p - 1));
                assert(seq![s[0]] + t.subrange(0, p - 1) =~= s.subrange(0, p));
            }
        }
        if p == s.len() {
            assert(forall|j: int| 0 <= j < t.len() ==> t[j] == s[j + 1]);
        }
    } else if s.len() > 0 {
        assert(p == 0);
        assert(s.subrange(0, 0) =~= Seq::<u8>::empty());
    }
}

proof fn lemma_scan_digits_char(s: Seq<u8>, p: int)
    requires
        0 <= p <= s.len(),
        forall|j: int| 0 <= j < p ==> is_digit(s[j]),
    ensures
        p < s.len() && !is_digit(s[p]) ==> sp_scan_digits(s) == Step::<Seq<u8>>::Found(
            s.subrange(0, p),
            p,
        ),
        p == s.len() ==> sp_scan_digits(s) is More,
    decreases s.len(),
{
    if s.len() > 0 && is_digit(s[0]) {
        let t = tail(s, 1);
        lemma_scan_digits_char(t, if p > 0 { p - 1 } else { 0 });
        if p < s.len() && !is_digit(s[p]) {
            if p == 0 {
            } else {
                assert(t[p - 1] == s[p]);
                assert(forall|j: int| 0 <= j < p - 1 ==> t[j] == s[j + 1] && is_digit(s[j + 1]));
                assert(sp_scan_digits(t) == Step::<Seq<u8>>::Found(t.subrange(0, p - 1), p - 1));
                assert(seq![s[0]] + t.subrange(0, p - 1) =~= s.subrange(0, p));
            }
        }
        if p == s.len() {
            assert(forall|j: int| 0 <= j < t.len() ==> t[j] == s[j + 1]);
        }
    } else if s.len() > 0 {
        assert(p == 0);
        assert(s.subrange(0, 0) =~= Seq::<u8>::empty());
    }
}

/// Whether a scan keeps going past this byte.
fn scan_continue(b: u8, stop_at_cr: bool) -> (r: bool)
    ensures
        r == (if stop_at_cr {
            b != 13
        } else {
            is_digit(b)
        }),
{
    if stop_at_cr {
        b != 13
    } else {
        48 <= b && b <= 57
    }
}

/// Copies `buf[start..end]` into a fresh vector.
fn copy_range(buf: &Vec<u8>, start: usize, end: usize) -> (r: Vec<u8>)
    requires
        start <= end <= buf@.len(),
    ensures
        r@ =~= buf@.subrange(start as int, end as int),
{
    let mut out: Vec<u8> = Vec::new();
    let mut i: usize = start;
    while i < end
        invariant
            start <= i <= end <= buf@.len(),
            out@ =~= buf@.subrange(start as int, i as int),
        decreases end - i,
    {
        let b = buf[i];
        out.push(b);
        i = i + 1;
        proof {
            assert(out@ =~= buf@.subrange(start as int, i as int));
        }
    }
    out
}

pub struct RESPStream {
    pub buf: Vec<u8>,
    pub cursor: usize,
    pub is_closed: bool,
}

impl RESPStream {
    /// Cursor within bounds.
    pub open spec fn wf(&self) -> bool {
        self.cursor <= self.buf@.len()
    }

    /// The bytes not yet consumed.
    pub open spec fn rem(&self) -> Seq<u8> {
        self.buf@.subrange(self.cursor as int, self.buf@.len() as int)
    }

    pub fn new() -> (r: Self)
        ensures
            r.wf(),
            r.buf@ =~= Seq::<u8>::empty(),
            r.cursor == 0,
            !r.is_closed,
    {
        RESPStream { buf: Vec::new(), cursor: 0, is_closed: false }
    }

    pub fn is_closed(&self) -> (r: bool)
        ensures
            r == self.is_closed,
    {
        self.is_closed
    }

    /// Appends bytes received from the wire.
    pub fn feed(&mut self, bytes: &Vec<u8>)
        requires
            old(self).wf(),
        ensures
            final(self).wf(),
            final(self).buf@ =~= old(self).buf@ + bytes@,
            final(self).cursor == old(self).cursor,
            final(self).is_closed == old(self).is_closed,
    {
        self.buf.extend_from_slice(bytes.as_slice());
    }

    /// Records that the wire reached end of input.
    pub fn close(&mut self)
        ensures
            final(self).buf == old(self).buf,
            final(self).cursor == old(self).cursor,
            final(self).is_closed,
    {
        self.is_closed = true;
    }

    fn peek(&self) -> (r: Option<u8>)
        requires
            self.wf(),
        ensures
            self.cursor < self.buf@.len() ==> r == Some(self.buf@[self.cursor as int]),
            self.cursor == self.buf@.len() ==> r is None,
    {
        if self.cursor < self.buf.len() {
            Some(self.buf[self.cursor])
        } else {
            None
        }
    }

    fn advance(&mut self) -> (r: Option<u8>)
        requires
            old(self).wf(),
        ensures
            final(self).wf(),
            final(self).buf == old(self).buf,
            final(self).is_closed == old(self).is_closed,
            old(self).cursor < old(self).buf@.len() ==> r == Some(
                old(self).buf@[old(self).cursor as int],
            ) && final(self).cursor == old(self).cursor + 1,
            old(self).cursor == old(self).buf@.len() ==> r is None && final(self).cursor == old(
                self,
            ).cursor,
    {
        if self.cursor < self.buf.len() {
            let b = self.buf[self.cursor];
            self.cursor = self.cursor + 1;
            Some(b)
        } else {
            None
        }
    }

    fn rewind(&mut self)
        requires
            old(self).wf(),
            old(self).cursor >= 1,
        ensures
            final(self).wf(),
            final(self).buf == old(self).buf,
            final(self).is_closed == old(self).is_closed,
            final(self).cursor == old(self).cursor - 1,
    {
        self.cursor = self.cursor - 1;
    }

    /// Consumes bytes up to the stop byte (a carriage return when
    /// `stop_at_cr`, otherwise the first non-digit) and returns them; the
    /// stop byte itself is left unread. `None` when the buffer runs out
    /// before a stop byte appears.
    fn try_parse_until(&mut self, stop_at_cr: bool) -> (r: Option<Vec<u8>>)
        requires
            old(self).wf(),
        ensures
            final(self).wf(),
            final(self).buf == old(self).buf,
            final(self).is_closed == old(self).is_closed,
            final(self).cursor >= old(self).cursor,
            match r {
                Some(bytes) => scan_result(old(self).rem(), stop_at_cr) matches Step::Found(b, n)
                    && b =~= bytes@ && final(self).cursor == old(self).cursor + n,
                None => scan_result(old(self).rem(), stop_at_cr) is More && final(self).cursor
                    == old(self).buf@.len(),
            },
    {
        let start = self.cursor;
        let ghost s = old(self).rem();
        let mut i: usize = start;
        while i < self.buf.len() && scan_continue(self.buf[i], stop_at_cr)
            invariant
                self == old(self),
                start == old(self).cursor,
                start <= i <= self.buf@.len(),
                self.wf(),
                s =~= old(self).rem(),
                forall|j: int|
                    start <= j < i ==> (if stop_at_cr {
                        self.buf@[j] != 13
                    } else {
                        is_digit(self.buf@[j])
                    }),
            decreases self.buf@.len() - i,
        {
            i = i + 1;
        }
        proof {
            assert(forall|k: int| 0 <= k < s.len() ==> s[k] == self.buf@[start + k]);
            if stop_at_cr {
                lemma_until_cr_char(s, i - start);
            } else {
                lemma_scan_digits_char(s, i - start);
            }
        }
        if i < self.buf.len() {
            let bytes = copy_range(&self.buf, start, i);
            self.cursor = i;
            proof {
                assert(bytes@ =~= s.subrange(0, i - start));
            }
            Some(bytes)
        } else {
            self.cursor = i;
            None
        }
    }

    /// A carriage return and line feed pair.
    fn try_parse_crlf(&mut self) -> (r: Result<Option<()>, RespError>)
        requires
            old(self).wf(),
        ensures
            final(self).wf(),
            final(self).buf == old(self).buf,
            final(self).is_closed == old(self).is_closed,
            final(self).cursor >= old(self).cursor,
            match r {
                Ok(Some(u)) => sp_crlf(old(self).rem()) matches Step::Found(x, n)
                    && final(self).cursor == old(self).cursor + 2,
                Ok(None) => sp_crlf(old(self).rem()) is More,
                Err(e) => sp_crlf(old(self).rem()) is Bad,
            },
    {
        let ghost s = old(self).rem();
        proof {
            assert(forall|k: int| 0 <= k < s.len() ==> s[k] == old(self).buf@[old(self).cursor + k]);
        }
        let cr = match self.advance() {
            Some(b) => b,
            None => {
                return Ok(None);
            },
        };
        if cr != 13 {
            return Err(RespError::ExpectedCarriageReturn);
        }
        let lf = match self.advance() {
            Some(b) => b,
            None => {
                return Ok(None);
            },
        };
        if lf != 10 {
            return Err(RespError::ExpectedLineFeed);
        }
        Ok(Some(()))
    }

    /// A signed decimal integer; the terminator is left unread.
    fn try_parse_number(&mut self) -> (r: Result<Option<i64>, RespError>)
        requires
            old(self).wf(),
        ensures
            final(self).wf(),
            final(self).buf == old(self).buf,
            final(self).is_closed == old(self).is_closed,
            final(self).cursor >= old(self).cursor,
            match r {
                Ok(Some(v)) => sp_number(old(self).rem()) matches Step::Found(x, n) && x == v as int
                    && final(self).cursor == old(self).cursor + n,
                Ok(None) => sp_number(old(self).rem()) is More,
                Err(e) => sp_number(old(self).rem()) is Bad,
            },
    {
        let ghost s = old(self).rem();
        proof {
            assert(forall|k: int| 0 <= k < s.len() ==> s[k] == old(self).buf@[old(self).cursor + k]);
        }
        let first = match self.peek() {
            Some(b) => b,
            None => {
                return Ok(None);
            },
        };
        let is_positive: bool;
        if first == 43 {
            let _ = self.advance();
            is_positive = true;
        } else if first == 45 {
            let _ = self.advance();
            is_positive = false;
        } else if 48 <= first && first <= 57 {
            is_positive = true;
        } else {
            return Err(RespError::ExpectedNumber);
        }
        let ghost off: int = if first == 43 || first == 45 {
            1
        } else {
            0
        };
        proof {
            assert(self.rem() =~= tail(s, off));
        }
        let ghost mid = self.cursor;
        let digits = match self.try_parse_until(false) {
            Some(d) => d,
            None => {
                return Ok(None);
            },
        };
        proof {
            lemma_scan_bounds(tail(s, off));
            assert(all_digits(digits@));
        }
        if digits.len() == 0 {
            return Err(RespError::InvalidNumber);
        }
        // accumulate the value, rejecting anything beyond the 64-bit range
        let ghost snap = *self;
        let mut acc: u64 = 0;
        let mut j: usize = 0;
        while j < digits.len()
            invariant
                *self == snap,
                snap.wf(),
                snap.buf == old(self).buf,
                snap.is_closed == old(self).is_closed,
                snap.cursor >= old(self).cursor,
                digits_val(digits@) > 0x7fff_ffff_ffff_ffff ==> (sp_number(old(self).rem())
                    is Bad),
                j <= digits@.len(),
                all_digits(digits@),
                acc == digits_val(digits@.take(j as int)),
                acc <= 0x7fff_ffff_ffff_ffff,
            decreases digits@.len() - j,
        {
            let d: u64 = (digits[j] - 48) as u64;
            let next: u128 = (acc as u128) * 10 + (d as u128);
            proof {
                lemma_digits_val_push(digits@.take(j as int), digits@[j as int]);
                assert(digits@.take(j + 1) =~= digits@.take(j as int).push(digits@[j as int]));
            }
            if next > 0x7fff_ffff_ffff_ffff {
                proof {
                    lemma_digits_val_prefix_le(digits@, j + 1);
                    assert(digits@.take(digits@.len() as int) =~= digits@);
                }
                return Err(RespError::InvalidNumber);
            }
            acc = next as u64;
            j = j + 1;
        }
        proof {
            assert(digits@.take(digits@.len() as int) =~= digits@);
        }
        let value: i64 = if is_positive {
            acc as i64
        } else {
            -(acc as i64)
        };
        Ok(Some(value))
    }

    /// A payload terminated by CRLF; both are consumed.
    fn try_parse_line(&mut self) -> (r: Result<Option<Vec<u8>>, RespError>)
        requires
            old(self).wf(),
        ensures
            final(self).wf(),
            final(self).buf == old(self).buf,
            final(self).is_closed == old(self).is_closed,
            final(self).cursor >= old(self).cursor,
            match r {
                Ok(Some(bytes)) => sp_line(old(self).rem()) matches Step::Found(b, n)
                    && b =~= bytes@ && final(self).cursor == old(self).cursor + n,
                Ok(None) => sp_line(old(self).rem()) is More,
                Err(e) => sp_line(old(self).rem()) is Bad,
            },
    {
        let ghost s = old(self).rem();
        let data = match self.try_parse_until(true) {
            Some(d) => d,
            None => {
                return Ok(None);
            },
        };
        let ghost ns = self.cursor - old(self).cursor;
        proof {
            lemma_scan_bounds(s);
            assert(self.rem() =~= tail(s, ns));
        }
        match self.try_parse_crlf() {
            Ok(Some(_)) => Ok(Some(data)),
            Ok(None) => Ok(None),
            Err(e) => Err(e),
        }
    }

    /// A number followed by CRLF; all of it is consumed.
    fn try_parse_number_line(&mut self) -> (r: Result<Option<i64>, RespError>)
        requires
            old(self).wf(),
        ensures
            final(self).wf(),
            final(self).buf == old(self).buf,
            final(self).is_closed == old(self).is_closed,
            final(self).cursor >= old(self).cursor,
            match r {
                Ok(Some(v)) => sp_number_line(old(self).rem()) matches Step::Found(x, n) && x == v
                    as int && final(self).cursor == old(self).cursor + n,
                Ok(None) => sp_number_line(old(self).rem()) is More,
                Err(e) => sp_number_line(old(self).rem()) is Bad,
            },
    {
        let ghost s = old(self).rem();
        let value = match self.try_parse_number() {
            Ok(Some(v)) => v,
            Ok(None) => {
                return Ok(None);
            },
            Err(e) => {
                return Err(e);
            },
        };
        let ghost nn = self.cursor - old(self).cursor;
        proof {
            assert(self.rem() =~= tail(s, nn));
        }
        match self.try_parse_crlf() {
            Ok(Some(_)) => Ok(Some(value)),
            Ok(None) => Ok(None),
            Err(e) => Err(e),
        }
    }

    /// One complete RESP value; `Ok(None)` when the buffer holds only a
    /// prefix of one.
    #[verifier::rlimit(100)]
    pub fn try_parse(&mut self) -> (r: Result<Option<RESPValue>, RespError>)
        requires
            old(self).wf(),
        ensures
            final(self).wf(),
            final(self).buf == old(self).buf,
            final(self).is_closed == old(self).is_closed,
            final(self).cursor >= old(self).cursor,
            match r {
                Ok(Some(v)) => sp_value(old(self).rem()) matches Step::Found(m, n) && view_value(v)
                    == m && final(self).cursor == old(self).cursor + n,
                Ok(None) => sp_value(old(self).rem()) is More,
                Err(e) => sp_value(old(self).rem()) is Bad,
            },
        decreases self.buf@.len() - self.cursor,
    {
        let ghost s = old(self).rem();
        proof {
            assert(forall|k: int| 0 <= k < s.len() ==> s[k] == old(self).buf@[old(self).cursor + k]);
        }
        let tag = match self.advance() {
            Some(b) => b,
            None => {
                return Ok(None);
            },
        };
        proof {
            assert(tag == s[0]);
            assert(self.rem() =~= tail(s, 1));
        }
        if tag == 43 {
            match self.try_parse_line() {
                Ok(Some(data)) => Ok(Some(RESPValue::SimpleString(data))),
                Ok(None) => Ok(None),
                Err(e) => Err(e),
            }
        } else if tag == 45 {
            match self.try_parse_line() {
                Ok(Some(data)) => Ok(Some(RESPValue::SimpleError(data))),
                Ok(None) => Ok(None),
                Err(e) => Err(e),
            }
        } else if tag == 58 {
            match self.try_parse_number_line() {
                Ok(Some(v)) => Ok(Some(RESPValue::Integer(v))),
                Ok(None) => Ok(None),
                Err(e) => Err(e),
            }
        } else if tag == 36 {
            let length = match self.try_parse_number_line() {
                Ok(Some(v)) => v,
                Ok(None) => {
                    return Ok(None);
                },
                Err(e) => {
                    return Err(e);
                },
            };
            let ghost nn = self.cursor - old(self).cursor - 1;
            if length == -1 {
                return Ok(Some(RESPValue::NullBulkString));
            }
            if length < 0 {
                return Err(RespError::InvalidLength);
            }
            let ghost body = tail(s, 1 + nn);
            proof {
                assert(self.rem() =~= body);
            }
            let avail = self.buf.len() - self.cursor;
            if (length as u128) > (avail as u128) {
                return Ok(None);
            }
            let l = length as usize;
            let bytes = copy_range(&self.buf, self.cursor, self.cursor + l);
            self.cursor = self.cursor + l;
            proof {
                assert(bytes@ =~= body.subrange(0, length as int));
                assert(self.rem() =~= tail(body, length as int));
            }
            match self.try_parse_crlf() {
                Ok(Some(_)) => Ok(Some(RESPValue::BulkString(bytes))),
                Ok(None) => Ok(None),
                Err(e) => Err(e),
            }
        } else if tag == 42 {
            let count = match self.try_parse_number_line() {
                Ok(Some(v)) => v,
                Ok(None) => {
                    return Ok(None);
                },
                Err(e) => {
                    return Err(e);
                },
            };
            let ghost hdr = self.cursor - old(self).cursor;
            if count == -1 {
                return Ok(Some(RESPValue::NullArray));
            }
            if count < 0 {
                return Err(RespError::InvalidLength);
            }
            let cnt = count as u64;
            let ghost sh = self.rem();
            let ghost c0 = self.cursor as int;
            proof {
                assert(sh =~= tail(s, hdr));
                lemma_number_line_bounds(tail(s, 1));
                lemma_value_bounds(s);
                assert(tail(sh, 0) =~= sh);
                assert(tail(sh, 0) == sh);
                if let Step::Found(vs2, m2) = sp_elements(sh, cnt as int) {
                    assert(view_values(Seq::<RESPValue>::empty()) + vs2 =~= vs2);
                }
            }
            let mut values: Vec<RESPValue> = Vec::new();
            let mut k: u64 = 0;
            while k < cnt
                invariant
                    old(self).wf(),
                    self.wf(),
                    self.buf == old(self).buf,
                    self.is_closed == old(self).is_closed,
                    s == old(self).rem(),
                    sh =~= tail(s, hdr),
                    4 <= hdr,
                    c0 == old(self).cursor + hdr,
                    c0 <= self.cursor <= self.buf@.len(),
                    k <= cnt,
                    (sp_value(s) matches Step::Found(m, n) ==> n <= s.len()),
                    (sp_elements(sh, cnt as int) matches Step::Found(vs, m) ==> sp_value(s)
                        == Step::<ValueModel>::Found(ValueModel::Array(vs), hdr + m)),
                    (sp_elements(sh, cnt as int) is More ==> sp_value(s) is More),
                    (sp_elements(sh, cnt as int) is Bad ==> sp_value(s) is Bad),
                    (sp_elements(tail(sh, self.cursor - c0), cnt - k) matches Step::Found(vs2, m2)
                        ==> sp_elements(sh, cnt as int) == Step::<Seq<ValueModel>>::Found(
                        view_values(values@) + vs2,
                        self.cursor - c0 + m2,
                    )),
                    (sp_elements(tail(sh, self.cursor - c0), cnt - k) is More ==> sp_elements(
                        sh,
                        cnt as int,
                    ) is More),
                    (sp_elements(tail(sh, self.cursor - c0), cnt - k) is Bad ==> sp_elements(
                        sh,
                        cnt as int,
                    ) is Bad),
                decreases cnt - k,
            {
                let ghost pre = self.cursor as int;
                let ghost t = self.rem();
                proof {
                    assert(t =~= tail(sh, pre - c0));
                }
                let v = match self.try_parse() {
                    Ok(Some(v)) => v,
                    Ok(None) => {
                        return Ok(None);
                    },
                    Err(e) => {
                        return Err(e);
                    },
                };
                proof {
                    lemma_value_bounds(t);
                }
                let ghost n = self.cursor - pre;
                let ghost vals_old = values@;
                values.push(v);
                k = k + 1;
                proof {
                    assert(values@ == vals_old.push(v));
                    lemma_view_values_push(vals_old, v);
                    assert(view_values(values@) == view_values(vals_old).push(view_value(v)));
                    lemma_tail_tail(sh, pre - c0, n);
                    assert(tail(tail(sh, pre - c0), n) =~= tail(sh, self.cursor - c0));
                    assert(sp_elements(tail(sh, pre - c0), cnt - (k - 1)) == (
                    match sp_elements(tail(sh, self.cursor - c0), cnt - k) {
                        Step::Found(vs2, m2) => Step::<Seq<ValueModel>>::Found(
                            seq![view_value(v)] + vs2,
                            n + m2,
                        ),
                        Step::More => Step::<Seq<ValueModel>>::More,
                        Step::Bad => Step::<Seq<ValueModel>>::Bad,
                    }));
                    if let Step::Found(vs2, m2) = sp_elements(tail(sh, self.cursor - c0), cnt - k) {
                        assert(view_values(vals_old) + (seq![view_value(v)] + vs2) =~= view_values(
                            values@,
                        ) + vs2);
                    }
                }
            }
            proof {
                assert(tail(sh, self.cursor - c0).len() >= 0);
                assert(sp_elements(tail(sh, self.cursor - c0), 0) == Step::<Seq<ValueModel>>::Found(
                    Seq::<ValueModel>::empty(),
                    0,
                ));
                assert(view_values(values@) + Seq::<ValueModel>::empty() =~= view_values(values@));
            }
            Ok(Some(RESPValue::Array(values)))
        } else {
            Err(RespError::UnexpectedDataTag)
        }
    }

    /// An RDB snapshot frame: the length-prefixed raw bytes sent after a
    /// full resynchronization header, with no trailing CRLF.
    pub fn try_parse_rdb(&mut self) -> (r: Result<Option<Vec<u8>>, RespError>)
        requires
            old(self).wf(),
        ensures
            final(self).wf(),
            final(self).buf == old(self).buf,
            final(self).is_closed == old(self).is_closed,
            final(self).cursor >= old(self).cursor,
            match r {
                Ok(Some(bytes)) => sp_rdb(old(self).rem()) matches Step::Found(b, n) && b =~= bytes@
                    && final(self).cursor == old(self).cursor + n,
                Ok(None) => sp_rdb(old(self).rem()) is More,
                Err(e) => sp_rdb(old(self).rem()) is Bad,
            },
    {
        let ghost s = old(self).rem();
        proof {
            assert(forall|k: int| 0 <= k < s.len() ==> s[k] == old(self).buf@[old(self).cursor + k]);
        }
        let tag = match self.advance() {
            Some(b) => b,
            None => {
                return Ok(None);
            },
        };
        proof {
            assert(tag == s[0]);
            assert(self.rem() =~= tail(s, 1));
        }
        if tag != 36 {
            return Err(RespError::UnexpectedDataTag);
        }
        let length = match self.try_parse_number_line() {
            Ok(Some(v)) => v,
            Ok(None) => {
                return Ok(None);
            },
            Err(e) => {
                return Err(e);
            },
        };
        let ghost nn = self.cursor - old(self).cursor - 1;
        if length < 0 {
            return Err(RespError::InvalidLength);
        }
        let ghost body = tail(s, 1 + nn);
        proof {
            assert(self.rem() =~= body);
        }
        let avail = self.buf.len() - self.cursor;
        if (length as u128) > (avail as u128) {
            return Ok(None);
        }
        let l = length as usize;
        let bytes = copy_range(&self.buf, self.cursor, self.cursor + l);
        self.cursor = self.cursor + l;
        proof {
            assert(bytes@ =~= body.subrange(0, length as int));
        }
        Ok(Some(bytes))
    }

    /// Tries to take one complete value off the front of the buffer and
    /// discards the consumed bytes. `Ok(None)` asks for more input; a
    /// stream that closed mid-value is an error.
    pub fn read_value(&mut self) -> (r: Result<Option<RESPValue>, RespError>)
        requires
            old(self).wf(),
        ensures
            final(self).wf(),
            final(self).is_closed == old(self).is_closed,
            match r {
                Ok(Some(v)) => sp_value(old(self).buf@) matches Step::Found(m, n) && view_value(v)
                    == m && final(self).buf@ =~= tail(old(self).buf@, n) && final(self).cursor == 0,
                Ok(None) => sp_value(old(self).buf@) is More && !old(self).is_closed
                    && final(self).buf == old(self).buf,
                Err(e) => (sp_value(old(self).buf@) is Bad) || ((sp_value(old(self).buf@) is More)
                    && old(self).is_closed),
            },
    {
        self.cursor = 0;
        proof {
            assert(self.rem() =~= old(self).buf@);
        }
        match self.try_parse() {
            Ok(Some(v)) => {
                let rest = self.buf.split_off(self.cursor);
                self.buf = rest;
                self.cursor = 0;
                Ok(Some(v))
            },
            Ok(None) => {
                self.cursor = 0;
                if self.is_closed {
                    Err(RespError::ConnectionClosed)
                } else {
                    Ok(None)
                }
            },
            Err(e) => Err(e),
        }
    }

    /// Tries to take one RDB snapshot frame off the front of the buffer.
    pub fn read_rdb_file(&mut self) -> (r: Result<Option<Vec<u8>>, RespError>)
        requires
            old(self).wf(),
        ensures
            final(self).wf(),
            final(self).is_closed == old(self).is_closed,
            match r {
                Ok(Some(bytes)) => sp_rdb(old(self).buf@) matches Step::Found(b, n) && b =~= bytes@
                    && final(self).buf@ =~= tail(old(self).buf@, n) && final(self).cursor == 0,
                Ok(None) => sp_rdb(old(self).buf@) is More && !old(self).is_closed
                    && final(self).buf == old(self).buf,
                Err(e) => (sp_rdb(old(self).buf@) is Bad) || ((sp_rdb(old(self).buf@) is More)
                    && old(self).is_closed),
            },
    {
        self.cursor = 0;
        proof {
            assert(self.rem() =~= old(self).buf@);
        }
        match self.try_parse_rdb() {
            Ok(Some(bytes)) => {
                let rest = self.buf.split_off(self.cursor);
                self.buf = rest;
                self.cursor = 0;
                Ok(Some(bytes))
            },
            Ok(None) => {
                self.cursor = 0;
                if self.is_closed {
                    Err(RespError::ConnectionClosed)
                } else {
                    Ok(None)
                }
            },
            Err(e) => Err(e),
        }
    }
}

} // verus!
