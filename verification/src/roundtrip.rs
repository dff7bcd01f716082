//! Round trip: parsing the encoding of a value yields the value back.
//!
//! This holds for every value whose encoding the parser accepts: simple
//! strings and errors must not contain a carriage return (the parser takes
//! the first one as the terminator), integer magnitudes must fit in a
//! signed 64-bit word, and lengths must do the same.

use vstd::prelude::*;

use crate::decimal::{
    dec_rep, int_rep, digits_val, is_digit, all_digits, lemma_dec_rep_digits, lemma_dec_rep_val,
};
use crate::parser::{
    Step, tail, sp_until_cr, sp_scan_digits, sp_crlf, sp_line, sp_number, sp_number_line, sp_value,
    sp_elements,
};
use crate::resp::{ValueModel, encoding, encoding_seq, crlf};

verus! {

/// The values whose encoding parses back to themselves.
pub open spec fn round_trippable(m: ValueModel) -> bool
    decreases m,
{
    match m {
        ValueModel::SimpleString(s) => forall|i: int| 0 <= i < s.len() ==> s[i] != 13,
        ValueModel::SimpleError(s) => forall|i: int| 0 <= i < s.len() ==> s[i] != 13,
        ValueModel::Integer(i) => -0x7fff_ffff_ffff_ffff <= i <= 0x7fff_ffff_ffff_ffff,
        ValueModel::BulkString(b) => b.len() <= 0x7fff_ffff_ffff_ffff,
        ValueModel::NullBulkString => true,
        ValueModel::Array(vs) => vs.len() <= 0x7fff_ffff_ffff_ffff && (forall|i: int|
            0 <= i < vs.len() ==> round_trippable(#[trigger] vs[i])),
        ValueModel::NullArray => true,
    }
}

proof fn lemma_until_cr_app(p: Seq<u8>, rest: Seq<u8>)
    requires
        forall|i: int| 0 <= i < p.len() ==> p[i] != 13,
        rest.len() >= 1,
        rest[0] == 13,
    ensures
        sp_until_cr(p + rest) == Step::<Seq<u8>>::Found(p, p.len() as int),
    decreases p.len(),
{
    let s = p + rest;
    if p.len() == 0 {
        assert(s =~= rest);
        assert(s.subrange(0, 0) =~= Seq::<u8>::empty());
        assert(Step::<Seq<u8>>::Found(Seq::<u8>::empty(), 0) == Step::<Seq<u8>>::Found(p, 0)) by {
            assert(p =~= Seq::<u8>::empty());
        }
    } else {
        lemma_until_cr_app(p.subrange(1, p.len() as int), rest);
        assert(tail(s, 1) =~= p.subrange(1, p.len() as int) + rest);
        assert(s[0] == p[0]);
        assert(seq![p[0]] + p.subrange(1, p.len() as int) =~= p);
    }
}

proof fn lemma_scan_digits_app(ds: Seq<u8>, rest: Seq<u8>)
    requires
        all_digits(ds),
        rest.len() >= 1,
        !is_digit(rest[0]),
    ensures
        sp_scan_digits(ds + rest) == Step::<Seq<u8>>::Found(ds, ds.len() as int),
    decreases ds.len(),
{
    let s = ds + rest;
    if ds.len() == 0 {
        assert(s =~= rest);
        assert(Step::<Seq<u8>>::Found(Seq::<u8>::empty(), 0) == Step::<Seq<u8>>::Found(ds, 0)) by {
            assert(ds =~= Seq::<u8>::empty());
        }
    } else {
        assert(is_digit(ds[0]));
        lemma_scan_digits_app(ds.subrange(1, ds.len() as int), rest);
        assert(tail(s, 1) =~= ds.subrange(1, ds.len() as int) + rest);
        assert(s[0] == ds[0]);
        assert(seq![ds[0]] + ds.subrange(1, ds.len() as int) =~= ds);
    }
}

proof fn lemma_crlf_app(rest: Seq<u8>)
    ensures
        sp_crlf(crlf() + rest) == Step::<()>::Found((), 2),
{
    let s = crlf() + rest;
    assert(s[0] == 13);
    assert(s[1] == 10);
}

proof fn lemma_line_app(p: Seq<u8>, rest: Seq<u8>)
    requires
        forall|i: int| 0 <= i < p.len() ==> p[i] != 13,
    ensures
        sp_line(p + crlf() + rest) == Step::<Seq<u8>>::Found(p, p.len() as int + 2),
{
    let s = p + crlf() + rest;
    assert(s =~= p + (crlf() + rest));
    lemma_until_cr_app(p, crlf() + rest);
    assert(tail(s, p.len() as int) =~= crlf() + rest);
    lemma_crlf_app(rest);
}

proof fn lemma_number_line_app(i: int, rest: Seq<u8>)
    requires
        -0x7fff_ffff_ffff_ffff <= i <= 0x7fff_ffff_ffff_ffff,
    ensures
        sp_number_line(int_rep(i) + crlf() + rest) == Step::<int>::Found(i, int_rep(i).len() as int + 2),
{
    let s = int_rep(i) + crlf() + rest;
    if i >= 0 {
        let ds = dec_rep(i as nat);
        lemma_dec_rep_digits(i as nat);
        lemma_dec_rep_val(i as nat);
        assert(s =~= ds + (crlf() + rest));
        assert(is_digit(s[0]));
        assert(s[0] != 43 && s[0] != 45);
        assert(tail(s, 0) =~= s);
        assert(tail(s, 0) == s);
        lemma_scan_digits_app(ds, crlf() + rest);
        assert(sp_number(s) == Step::<int>::Found(i, ds.len() as int));
        assert(tail(s, ds.len() as int) =~= crlf() + rest);
        lemma_crlf_app(rest);
    } else {
        let ds = dec_rep((-i) as nat);
        lemma_dec_rep_digits((-i) as nat);
        lemma_dec_rep_val((-i) as nat);
        assert(int_rep(i) =~= seq![45u8] + ds);
        assert(s =~= seq![45u8] + (ds + (crlf() + rest)));
        assert(s[0] == 45);
        assert(tail(s, 1) =~= ds + (crlf() + rest));
        lemma_scan_digits_app(ds, crlf() + rest);
        assert(digits_val(ds) == -i);
        assert(sp_number(s) == Step::<int>::Found(i, 1 + ds.len() as int));
        assert(tail(s, 1 + ds.len() as int) =~= crlf() + rest);
        lemma_crlf_app(rest);
    }
}

/// Parsing the encoding of a value, followed by anything, finds exactly
/// that value and consumes exactly its encoding.
#[verifier::rlimit(100)]
#[verifier::spinoff_prover]
pub proof fn lemma_parse_encoding(m: ValueModel, rest: Seq<u8>)
    requires
        round_trippable(m),
    ensures
        sp_value(encoding(m) + rest) == Step::<ValueModel>::Found(m, encoding(m).len() as int),
    decreases m, 0int,
{
    let s = encoding(m) + rest;
    match m {
        ValueModel::SimpleString(p) => {
            assert(s[0] == 43);
            assert(tail(s, 1) =~= p + crlf() + rest);
            lemma_line_app(p, rest);
        }
        ValueModel::SimpleError(p) => {
            assert(s[0] == 45);
            assert(tail(s, 1) =~= p + crlf() + rest);
            lemma_line_app(p, rest);
        }
        ValueModel::Integer(i) => {
            assert(s[0] == 58);
            assert(tail(s, 1) =~= int_rep(i) + crlf() + rest);
            lemma_number_line_app(i, rest);
        }
        ValueModel::BulkString(b) => {
            assert(s[0] == 36);
            let hdr = int_rep(b.len() as int);
            assert(hdr =~= dec_rep(b.len()));
            assert(tail(s, 1) =~= hdr + crlf() + (b + crlf() + rest));
            lemma_number_line_app(b.len() as int, b + crlf() + rest);
            let n: int = hdr.len() as int + 2;
            let body = tail(s, 1 + n);
            assert(body =~= b + crlf() + rest);
            assert(body.len() >= b.len());
            assert(body.subrange(0, b.len() as int) =~= b);
            assert(tail(body, b.len() as int) =~= crlf() + rest);
            lemma_crlf_app(rest);
            assert(encoding(m).len() == 1 + n + b.len() + 2);
        }
        ValueModel::NullBulkString => {
            assert(s[0] == 36);
            assert(tail(s, 1) =~= int_rep(-1) + crlf() + rest) by {
                assert(int_rep(-1) =~= seq![45u8, 49u8]) by {
                    assert(dec_rep(1nat) =~= seq![49u8]);
                }
                assert(encoding(m) =~= seq![36u8, 45u8, 49u8, 13u8, 10u8]);
                assert(tail(s, 1) =~= seq![45u8, 49u8, 13u8, 10u8] + rest);
                assert(seq![45u8, 49u8] + crlf() + rest =~= seq![45u8, 49u8, 13u8, 10u8] + rest);
            }
            lemma_number_line_app(-1, rest);
            assert(int_rep(-1).len() == 2) by {
                assert(dec_rep(1nat) =~= seq![49u8]);
            }
        }
        ValueModel::Array(vs) => {
            assert(s[0] == 42);
            let hdr = int_rep(vs.len() as int);
            assert(hdr =~= dec_rep(vs.len()));
            assert(tail(s, 1) =~= hdr + crlf() + (encoding_seq(vs) + rest));
            lemma_number_line_app(vs.len() as int, encoding_seq(vs) + rest);
            let n: int = hdr.len() as int + 2;
            assert(tail(s, 1 + n) =~= encoding_seq(vs) + rest);
            lemma_parse_encoding_seq(vs, rest);
            assert(encoding(m).len() == 1 + n + encoding_seq(vs).len());
        }
        ValueModel::NullArray => {
            assert(s[0] == 42);
            assert(tail(s, 1) =~= int_rep(-1) + crlf() + rest) by {
                assert(int_rep(-1) =~= seq![45u8, 49u8]) by {
                    assert(dec_rep(1nat) =~= seq![49u8]);
                }
                assert(encoding(m) =~= seq![42u8, 45u8, 49u8, 13u8, 10u8]);
                assert(tail(s, 1) =~= seq![45u8, 49u8, 13u8, 10u8] + rest);
                assert(seq![45u8, 49u8] + crlf() + rest =~= seq![45u8, 49u8, 13u8, 10u8] + rest);
            }
            lemma_number_line_app(-1, rest);
            assert(int_rep(-1).len() == 2) by {
                assert(dec_rep(1nat) =~= seq![49u8]);
            }
        }
    }
}

proof fn lemma_parse_encoding_seq(vs: Seq<ValueModel>, rest: Seq<u8>)
    requires
        forall|i: int| 0 <= i < vs.len() ==> round_trippable(#[trigger] vs[i]),
    ensures
        sp_elements(encoding_seq(vs) + rest, vs.len() as int) == Step::<Seq<ValueModel>>::Found(
            vs,
            encoding_seq(vs).len() as int,
        ),
    decreases vs, 1int,
{
    let s = encoding_seq(vs) + rest;
    if vs.len() == 0 {
        assert(Step::<Seq<ValueModel>>::Found(Seq::<ValueModel>::empty(), 0)
            == Step::<Seq<ValueModel>>::Found(vs, 0)) by {
            assert(vs =~= Seq::<ValueModel>::empty());
        }
    } else {
        let head = vs[0];
        let tl = vs.subrange(1, vs.len() as int);
        assert(encoding_seq(vs) == encoding(head) + encoding_seq(tl));
        assert(s =~= encoding(head) + (encoding_seq(tl) + rest));
        lemma_parse_encoding(head, encoding_seq(tl) + rest);
        let n = encoding(head).len() as int;
        assert(tail(s, n) =~= encoding_seq(tl) + rest);
        lemma_parse_encoding_seq(tl, rest);
        assert(seq![head] + tl =~= vs);
        assert(encoding_seq(vs).len() == n + encoding_seq(tl).len());
    }
}

/// Round trip: for every accepted value, parsing its encoding finds the
/// value itself and consumes every byte.
pub proof fn lemma_round_trip(m: ValueModel)
    requires
        round_trippable(m),
    ensures
        sp_value(encoding(m)) == Step::<ValueModel>::Found(m, encoding(m).len() as int),
{
    lemma_parse_encoding(m, Seq::empty());
    assert(encoding(m) + Seq::<u8>::empty() =~= encoding(m));
}

} // verus!
