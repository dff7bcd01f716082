//! RESP values and their wire encoding.
//!
//! `RESPValue` is the executable value; `ValueModel` is its mathematical
//! twin, with byte sequences in place of vectors. `encoding` gives the
//! wire bytes of a model; `encode` produces exactly those bytes.

use vstd::prelude::*;

use crate::decimal::{dec_rep, int_rep, fmt_i64, fmt_u64};

verus! {

#[derive(Debug, PartialEq, Eq)]
pub enum RESPValue {
    SimpleString(Vec<u8>),
    SimpleError(Vec<u8>),
    Integer(i64),
    BulkString(Vec<u8>),
    NullBulkString,
    Array(Vec<RESPValue>),
    NullArray,
}

/// Mathematical form of a RESP value.
pub enum ValueModel {
    SimpleString(Seq<u8>),
    SimpleError(Seq<u8>),
    Integer(int),
    BulkString(Seq<u8>),
    NullBulkString,
    Array(Seq<ValueModel>),
    NullArray,
}

/// The model that an executable value stands for.
pub open spec fn view_value(v: RESPValue) -> ValueModel
    decreases v,
{
    match v {
        RESPValue::SimpleString(s) => ValueModel::SimpleString(s@),
        RESPValue::SimpleError(s) => ValueModel::SimpleError(s@),
        RESPValue::Integer(i) => ValueModel::Integer(i as int),
        RESPValue::BulkString(b) => ValueModel::BulkString(b@),
        RESPValue::NullBulkString => ValueModel::NullBulkString,
        RESPValue::Array(vs) => ValueModel::Array(view_values(vs@)),
        RESPValue::NullArray => ValueModel::NullArray,
    }
}

pub open spec fn view_values(vs: Seq<RESPValue>) -> Seq<ValueModel>
    decreases vs,
{
    if vs.len() == 0 {
        Seq::empty()
    } else {
        seq![view_value(vs[0])] + view_values(vs.subrange(1, vs.len() as int))
    }
}

pub proof fn lemma_view_values_len(vs: Seq<RESPValue>)
    ensures
        view_values(vs).len() == vs.len(),
        forall|i: int| 0 <= i < vs.len() ==> view_values(vs)[i] == view_value(#[trigger] vs[i]),
    decreases vs.len(),
{
    if vs.len() > 0 {
        let rest = vs.subrange(1, vs.len() as int);
        lemma_view_values_len(rest);
        assert forall|i: int| 0 <= i < vs.len() implies view_values(vs)[i] == view_value(
            #[trigger] vs[i],
        ) by {
            if i > 0 {
                assert(rest[i - 1] == vs[i]);
                assert(view_values(vs)[i] == view_values(rest)[i - 1]);
            }
        }
    }
}

pub proof fn lemma_view_values_push(vs: Seq<RESPValue>, x: RESPValue)
    ensures
        view_values(vs.push(x)) =~= view_values(vs).push(view_value(x)),
    decreases vs.len(),
{
    lemma_view_values_len(vs);
    lemma_view_values_len(vs.push(x));
    assert(vs.push(x).len() == vs.len() + 1);
    assert forall|i: int| 0 <= i < vs.len() + 1 implies view_values(vs.push(x))[i] == view_values(
        vs,
    ).push(view_value(x))[i] by {
        if i < vs.len() {
            assert(vs.push(x)[i] == vs[i]);
        } else {
            assert(vs.push(x)[i] == x);
        }
    }
}

/// The two-byte line terminator.
pub open spec fn crlf() -> Seq<u8> {
    seq![13u8, 10u8]
}

/// The wire encoding of a RESP value.
pub open spec fn encoding(v: ValueModel) -> Seq<u8>
    decreases v,
{
    match v {
        ValueModel::SimpleString(s) => seq![43u8] + s + crlf(),
        ValueModel::SimpleError(s) => seq![45u8] + s + crlf(),
        ValueModel::Integer(i) => seq![58u8] + int_rep(i) + crlf(),
        ValueModel::BulkString(b) => seq![36u8] + dec_rep(b.len()) + crlf() + b + crlf(),
        ValueModel::NullBulkString => seq![36u8, 45u8, 49u8, 13u8, 10u8],
        ValueModel::Array(vs) => seq![42u8] + dec_rep(vs.len()) + crlf() + encoding_seq(vs),
        ValueModel::NullArray => seq![42u8, 45u8, 49u8, 13u8, 10u8],
    }
}

/// The concatenated encodings of a sequence of values.
pub open spec fn encoding_seq(vs: Seq<ValueModel>) -> Seq<u8>
    decreases vs,
{
    if vs.len() == 0 {
        Seq::empty()
    } else {
        encoding(vs[0]) + encoding_seq(vs.subrange(1, vs.len() as int))
    }
}

pub proof fn lemma_encoding_seq_push(vs: Seq<ValueModel>, x: ValueModel)
    ensures
        encoding_seq(vs.push(x)) =~= encoding_seq(vs) + encoding(x),
    decreases vs.len(),
{
    if vs.len() == 0 {
        assert(vs.push(x)[0] == x);
        assert(vs.push(x).subrange(1, vs.push(x).len() as int) =~= Seq::<ValueModel>::empty());
        assert(encoding_seq(vs.push(x)) == encoding(x) + encoding_seq(
            vs.push(x).subrange(1, vs.push(x).len() as int),
        ));
        assert(encoding_seq(Seq::<ValueModel>::empty()) =~= Seq::<u8>::empty());
        assert(encoding_seq(vs) =~= Seq::<u8>::empty());
    } else {
        lemma_encoding_seq_push(vs.subrange(1, vs.len() as int), x);
        assert(vs.push(x)[0] == vs[0]);
        assert(vs.push(x).subrange(1, vs.push(x).len() as int) =~= vs.subrange(
            1,
            vs.len() as int,
        ).push(x));
        assert(encoding_seq(vs.push(x)) == encoding(vs[0]) + encoding_seq(
            vs.push(x).subrange(1, vs.push(x).len() as int),
        ));
        assert(encoding_seq(vs) == encoding(vs[0]) + encoding_seq(vs.subrange(1, vs.len() as int)));
    }
}

/// Shorthand for the encoding of an executable value.
pub open spec fn encoding_of(v: RESPValue) -> Seq<u8> {
    encoding(view_value(v))
}

impl RESPValue {
    pub fn into_array(self) -> (r: Option<Vec<RESPValue>>)
        ensures
            match self {
                RESPValue::Array(values) => r == Some(values),
                _ => r is None,
            },
    {
        if let RESPValue::Array(values) = self {
            Some(values)
        } else {
            None
        }
    }

    pub fn into_bulk_string(self) -> (r: Option<Vec<u8>>)
        ensures
            match self {
                RESPValue::BulkString(bytes) => r == Some(bytes),
                _ => r is None,
            },
    {
        if let RESPValue::BulkString(bytes) = self {
            Some(bytes)
        } else {
            None
        }
    }
}

fn push_crlf(out: &mut Vec<u8>)
    ensures
        final(out)@ =~= old(out)@ + crlf(),
{
    out.push(13u8);
    out.push(10u8);
}

fn push_all(out: &mut Vec<u8>, bytes: &Vec<u8>)
    ensures
        final(out)@ =~= old(out)@ + bytes@,
{
    out.extend_from_slice(bytes.as_slice());
}

/// Appends the encoding of `v` to `out`.
fn encode_into(v: &RESPValue, out: &mut Vec<u8>)
    ensures
        final(out)@ =~= old(out)@ + encoding_of(*v),
    decreases *v,
{
    match v {
        RESPValue::SimpleString(s) => {
            out.push(43u8);
            push_all(out, s);
            push_crlf(out);
        }
        RESPValue::SimpleError(s) => {
            out.push(45u8);
            push_all(out, s);
            push_crlf(out);
        }
        RESPValue::Integer(i) => {
            out.push(58u8);
            let digits = fmt_i64(*i);
            push_all(out, &digits);
            push_crlf(out);
        }
        RESPValue::BulkString(b) => {
            out.push(36u8);
            let digits = fmt_u64(b.len() as u64);
            push_all(out, &digits);
            push_crlf(out);
            push_all(out, b);
            push_crlf(out);
        }
        RESPValue::NullBulkString => {
            out.push(36u8);
            out.push(45u8);
            out.push(49u8);
            push_crlf(out);
        }
        RESPValue::Array(vs) => {
            out.push(42u8);
            let digits = fmt_u64(vs.len() as u64);
            push_all(out, &digits);
            push_crlf(out);
            proof {
                lemma_view_values_len(vs@);
            }
            let mut i: usize = 0;
            while i < vs.len()
                invariant
                    i <= vs@.len(),
                    *v == RESPValue::Array(*vs),
                    out@ =~= old(out)@ + seq![42u8] + dec_rep(vs@.len()) + crlf()
                        + encoding_seq(view_values(vs@.take(i as int))),
                decreases vs@.len() - i,
            {
                proof {
                    assert(decreases_to!(*v => v->Array_0));
                    assert(decreases_to!(v->Array_0 => vs@));
                    assert(decreases_to!(vs@ => vs@[i as int]));
                }
                encode_into(&vs[i], out);
                proof {
                    lemma_view_values_push(vs@.take(i as int), vs@[i as int]);
                    lemma_encoding_seq_push(
                        view_values(vs@.take(i as int)),
                        view_value(vs@[i as int]),
                    );
                    assert(vs@.take(i + 1) =~= vs@.take(i as int).push(vs@[i as int]));
                }
                i = i + 1;
            }
            proof {
                assert(vs@.take(vs@.len() as int) =~= vs@);
            }
        }
        RESPValue::NullArray => {
            out.push(42u8);
            out.push(45u8);
            out.push(49u8);
            push_crlf(out);
        }
    }
}

/// Encodes a RESP value as the exact byte sequence `encoding_of(*v)`.
pub fn encode(v: &RESPValue) -> (r: Vec<u8>)
    ensures
        r@ =~= encoding_of(*v),
{
    let mut out: Vec<u8> = Vec::new();
    encode_into(v, &mut out);
    out
}

pub fn simple_string(bytes: Vec<u8>) -> (r: RESPValue)
    ensures
        r == RESPValue::SimpleString(bytes),
{
    RESPValue::SimpleString(bytes)
}

pub fn integer(value: i64) -> (r: RESPValue)
    ensures
        r == RESPValue::Integer(value),
{
    RESPValue::Integer(value)
}

pub fn bulk_string(bytes: Vec<u8>) -> (r: RESPValue)
    ensures
        r == RESPValue::BulkString(bytes),
{
    RESPValue::BulkString(bytes)
}

pub fn null_bulk_string() -> (r: RESPValue)
    ensures
        r == RESPValue::NullBulkString,
{
    RESPValue::NullBulkString
}

pub fn array(values: Vec<RESPValue>) -> (r: RESPValue)
    ensures
        r == RESPValue::Array(values),
{
    RESPValue::Array(values)
}

} // verus!
