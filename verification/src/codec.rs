//! The byte encoding of the persisted records.
//!
//! Records are stored in the key-value store as byte strings.  The encoding
//! is length-prefixed: integers are eight bytes little-endian, strings are a
//! byte count followed by their UTF-8 bytes, lists are an element count
//! followed by the elements.  Every decoder is proved to be the inverse of
//! the corresponding encoder: decoding any encoding yields the encoded value
//! and nothing else.

use vstd::prelude::*;
use vstd::slice::slice_subrange;
use vstd::utf8::{encode_utf8, encode_utf8_decode_utf8, encode_utf8_valid_utf8, valid_utf8};

use crate::models::{
    ComparisonPair, FileChunkQueue, FileChunkQueueView, ReconFileMetaData, ReconFileMetaDataView,
    ReconTaskDetails, ReconTaskDetailsView, ReconciliationConfigs, ReconFileType,
};

verus! {

/// Relies on core::str::from_utf8: `Ok` exactly on valid UTF-8, returning
/// the character sequence those bytes encode.
pub assume_specification[ core::str::from_utf8 ](v: &[u8]) -> (r: Result<
    &str,
    core::str::Utf8Error,
>)
    ensures
        r matches Ok(s) ==> encode_utf8(s@) == v@,
        valid_utf8(v@) ==> r is Ok,
;

#[verifier::external_type_specification]
#[verifier::external_body]
pub struct ExUtf8Error(core::str::Utf8Error);

/// The bytes `e` stand at position `pos` of `bytes`.
pub open spec fn matches_at(bytes: Seq<u8>, pos: int, e: Seq<u8>) -> bool {
    &&& 0 <= pos
    &&& pos + e.len() <= bytes.len()
    &&& bytes.subrange(pos, pos + e.len()) == e
}

/// A `u64`, little-endian.
pub open spec fn enc_u64(v: u64) -> Seq<u8> {
    seq![
        (v & 0xff) as u8,
        ((v >> 8) & 0xff) as u8,
        ((v >> 16) & 0xff) as u8,
        ((v >> 24) & 0xff) as u8,
        ((v >> 32) & 0xff) as u8,
        ((v >> 40) & 0xff) as u8,
        ((v >> 48) & 0xff) as u8,
        ((v >> 56) & 0xff) as u8,
    ]
}

/// A `bool` as one byte.
pub open spec fn enc_bool(b: bool) -> Seq<u8> {
    seq![if b { 1u8 } else { 0u8 }]
}

/// A character sequence: its UTF-8 byte count, then its UTF-8 bytes.
pub open spec fn enc_string(s: Seq<char>) -> Seq<u8> {
    enc_u64(encode_utf8(s).len() as u64) + encode_utf8(s)
}

/// An optional character sequence: a presence byte, then the sequence.
pub open spec fn enc_opt_string(o: Option<Seq<char>>) -> Seq<u8> {
    match o {
        None => seq![0u8],
        Some(s) => seq![1u8] + enc_string(s),
    }
}

/// Splitting a match of a concatenation into matches of its halves.
proof fn lemma_split_match(bytes: Seq<u8>, pos: int, a: Seq<u8>, b: Seq<u8>)
    requires
        matches_at(bytes, pos, a + b),
    ensures
        matches_at(bytes, pos, a),
        matches_at(bytes, pos + a.len(), b),
{
    let whole = bytes.subrange(pos, pos + a.len() + b.len());
    assert(bytes.subrange(pos, pos + a.len()) =~= a) by {
        assert forall|i: int| 0 <= i < a.len() implies bytes.subrange(pos, pos + a.len())[i]
            == a[i] by {
            assert(whole[i] == (a + b)[i]);
        }
    }
    assert(bytes.subrange(pos + a.len(), pos + a.len() + b.len()) =~= b) by {
        assert forall|i: int| 0 <= i < b.len() implies bytes.subrange(
            pos + a.len(),
            pos + a.len() + b.len(),
        )[i] == b[i] by {
            assert(whole[a.len() + i] == (a + b)[a.len() + i]);
        }
    }
}

/// Joining adjacent matches into a match of the concatenation.
proof fn lemma_join_match(bytes: Seq<u8>, pos: int, a: Seq<u8>, b: Seq<u8>)
    requires
        matches_at(bytes, pos, a),
        matches_at(bytes, pos + a.len(), b),
    ensures
        matches_at(bytes, pos, a + b),
{
    assert(bytes.subrange(pos, pos + a.len() + b.len()) =~= a + b) by {
        assert forall|i: int| 0 <= i < a.len() + b.len() implies bytes.subrange(
            pos,
            pos + a.len() + b.len(),
        )[i] == (a + b)[i] by {
            if i < a.len() {
                assert(bytes.subrange(pos, pos + a.len())[i] == a[i]);
            } else {
                assert(bytes.subrange(pos + a.len(), pos + a.len() + b.len())[i - a.len()]
                    == b[i - a.len()]);
            }
        }
    }
}

fn write_u64(out: &mut Vec<u8>, v: u64)
    ensures
        final(out)@ == old(out)@ + enc_u64(v),
{
    out.push((v & 0xff) as u8);
    out.push(((v >> 8) & 0xff) as u8);
    out.push(((v >> 16) & 0xff) as u8);
    out.push(((v >> 24) & 0xff) as u8);
    out.push(((v >> 32) & 0xff) as u8);
    out.push(((v >> 40) & 0xff) as u8);
    out.push(((v >> 48) & 0xff) as u8);
    out.push(((v >> 56) & 0xff) as u8);
    proof {
        assert(out@ =~= old(out)@ + enc_u64(v));
    }
}

fn write_bool(out: &mut Vec<u8>, b: bool)
    ensures
        final(out)@ == old(out)@ + enc_bool(b),
{
    out.push(if b { 1u8 } else { 0u8 });
    proof {
        assert(out@ =~= old(out)@ + enc_bool(b));
    }
}

fn write_string(out: &mut Vec<u8>, s: &str)
    ensures
        final(out)@ == old(out)@ + enc_string(s@),
{
    let b = s.as_bytes();
    write_u64(out, b.len() as u64);
    let ghost mid = out@;
    let mut i: usize = 0;
    while i < b.len()
        invariant
            i <= b@.len(),
            b@ == encode_utf8(s@),
            out@ == mid + b@.take(i as int),
        decreases b@.len() - i,
    {
        let byte = *vstd::slice::slice_index_get(b, i);
        out.push(byte);
        proof {
            assert(out@ =~= mid + b@.take(i + 1));
        }
        i += 1;
    }
    proof {
        assert(b@.take(b@.len() as int) =~= b@);
        assert(out@ =~= old(out)@ + enc_string(s@));
    }
}

fn write_opt_string(out: &mut Vec<u8>, o: &Option<String>)
    ensures
        final(out)@ == old(out)@ + enc_opt_string(match *o {
            Some(ref s) => Some(s@),
            None => None,
        }),
{
    match o {
        None => {
            out.push(0u8);
            proof {
                assert(out@ =~= old(out)@ + enc_opt_string(None));
            }
        },
        Some(s) => {
            out.push(1u8);
            write_string(out, s.as_str());
            proof {
                assert(out@ =~= old(out)@ + enc_opt_string(Some(s@)));
            }
        },
    }
}

/// A list of character sequences, without its count.
pub open spec fn enc_string_seq(v: Seq<Seq<char>>) -> Seq<u8>
    decreases v.len(),
{
    if v.len() == 0 {
        Seq::empty()
    } else {
        enc_string(v[0]) + enc_string_seq(v.drop_first())
    }
}

/// A list of character sequences: its count, then its elements.
pub open spec fn enc_strings(v: Seq<Seq<char>>) -> Seq<u8> {
    enc_u64(v.len() as u64) + enc_string_seq(v)
}

/// One column-pair rule.
pub open spec fn enc_pair(p: ComparisonPair) -> Seq<u8> {
    enc_u64(p.primary_file_column_index as u64) + (enc_u64(p.comparison_file_column_index as u64)
        + enc_bool(p.is_row_identifier))
}

/// A list of column-pair rules, without its count.
pub open spec fn enc_pair_seq(v: Seq<ComparisonPair>) -> Seq<u8>
    decreases v.len(),
{
    if v.len() == 0 {
        Seq::empty()
    } else {
        enc_pair(v[0]) + enc_pair_seq(v.drop_first())
    }
}

/// A list of column-pair rules: its count, then its elements.
pub open spec fn enc_pairs(v: Seq<ComparisonPair>) -> Seq<u8> {
    enc_u64(v.len() as u64) + enc_pair_seq(v)
}

proof fn lemma_enc_string_seq_concat(a: Seq<Seq<char>>, b: Seq<Seq<char>>)
    ensures
        enc_string_seq(a + b) == enc_string_seq(a) + enc_string_seq(b),
    decreases a.len(),
{
    if a.len() == 0 {
        assert(a + b =~= b);
        assert(enc_string_seq(a) + enc_string_seq(b) =~= enc_string_seq(b));
    } else {
        assert((a + b).len() > 0);
        assert((a + b)[0] == a[0]);
        assert((a + b).drop_first() =~= a.drop_first() + b);
        lemma_enc_string_seq_concat(a.drop_first(), b);
        assert(enc_string(a[0]) + (enc_string_seq(a.drop_first()) + enc_string_seq(b)) =~= (
        enc_string(a[0]) + enc_string_seq(a.drop_first())) + enc_string_seq(b));
    }
}

proof fn lemma_enc_string_seq_len(v: Seq<Seq<char>>)
    ensures
        enc_string_seq(v).len() >= 8 * v.len(),
    decreases v.len(),
{
    if v.len() > 0 {
        lemma_enc_string_seq_len(v.drop_first());
    }
}

proof fn lemma_enc_pair_seq_concat(a: Seq<ComparisonPair>, b: Seq<ComparisonPair>)
    ensures
        enc_pair_seq(a + b) == enc_pair_seq(a) + enc_pair_seq(b),
    decreases a.len(),
{
    if a.len() == 0 {
        assert(a + b =~= b);
        assert(enc_pair_seq(a) + enc_pair_seq(b) =~= enc_pair_seq(b));
    } else {
        assert((a + b).len() > 0);
        assert((a + b)[0] == a[0]);
        assert((a + b).drop_first() =~= a.drop_first() + b);
        lemma_enc_pair_seq_concat(a.drop_first(), b);
        assert(enc_pair(a[0]) + (enc_pair_seq(a.drop_first()) + enc_pair_seq(b)) =~= (enc_pair(
            a[0],
        ) + enc_pair_seq(a.drop_first())) + enc_pair_seq(b));
    }
}

proof fn lemma_enc_pair_seq_len(v: Seq<ComparisonPair>)
    ensures
        enc_pair_seq(v).len() == 17 * v.len(),
    decreases v.len(),
{
    if v.len() > 0 {
        lemma_enc_pair_seq_len(v.drop_first());
    }
}

fn read_u64(bytes: &Vec<u8>, pos: usize) -> (r: Option<(u64, usize)>)
    ensures
        r matches Some((v, end)) ==> end == pos + 8 && matches_at(bytes@, pos as int, enc_u64(v)),
        forall|w: u64| #![trigger enc_u64(w)]
            matches_at(bytes@, pos as int, enc_u64(w)) ==> (r matches Some((v, end)) && v == w
                && end == pos + 8),
{
    if bytes.len() < 8 || pos > bytes.len() - 8 {
        return None;
    }
    let b0 = bytes[pos];
    let b1 = bytes[pos + 1];
    let b2 = bytes[pos + 2];
    let b3 = bytes[pos + 3];
    let b4 = bytes[pos + 4];
    let b5 = bytes[pos + 5];
    let b6 = bytes[pos + 6];
    let b7 = bytes[pos + 7];
    let v = (b0 as u64) | ((b1 as u64) << 8) | ((b2 as u64) << 16) | ((b3 as u64) << 24) | ((
    b4 as u64) << 32) | ((b5 as u64) << 40) | ((b6 as u64) << 48) | ((b7 as u64) << 56);
    proof {
        assert((v & 0xff) as u8 == b0 && ((v >> 8) & 0xff) as u8 == b1 && ((v >> 16) & 0xff) as u8
            == b2 && ((v >> 24) & 0xff) as u8 == b3 && ((v >> 32) & 0xff) as u8 == b4 && ((v >> 40)
            & 0xff) as u8 == b5 && ((v >> 48) & 0xff) as u8 == b6 && ((v >> 56) & 0xff) as u8 == b7)
            by (bit_vector)
            requires
                v == (b0 as u64) | ((b1 as u64) << 8) | ((b2 as u64) << 16) | ((b3 as u64) << 24)
                    | ((b4 as u64) << 32) | ((b5 as u64) << 40) | ((b6 as u64) << 48) | ((
                b7 as u64) << 56),
        ;
        assert(bytes@.subrange(pos as int, pos + 8) =~= enc_u64(v));
        assert forall|w: u64| #![trigger enc_u64(w)]
            matches_at(bytes@, pos as int, enc_u64(w)) implies v == w by {
            assert(bytes@.subrange(pos as int, pos + 8)[0] == enc_u64(w)[0]);
            assert(bytes@.subrange(pos as int, pos + 8)[1] == enc_u64(w)[1]);
            assert(bytes@.subrange(pos as int, pos + 8)[2] == enc_u64(w)[2]);
            assert(bytes@.subrange(pos as int, pos + 8)[3] == enc_u64(w)[3]);
            assert(bytes@.subrange(pos as int, pos + 8)[4] == enc_u64(w)[4]);
            assert(bytes@.subrange(pos as int, pos + 8)[5] == enc_u64(w)[5]);
            assert(bytes@.subrange(pos as int, pos + 8)[6] == enc_u64(w)[6]);
            assert(bytes@.subrange(pos as int, pos + 8)[7] == enc_u64(w)[7]);
            assert(v == w) by (bit_vector)
                requires
                    v == (b0 as u64) | ((b1 as u64) << 8) | ((b2 as u64) << 16) | ((b3 as u64)
                        << 24) | ((b4 as u64) << 32) | ((b5 as u64) << 40) | ((b6 as u64) << 48)
                        | ((b7 as u64) << 56),
                    b0 == (w & 0xff) as u8,
                    b1 == ((w >> 8) & 0xff) as u8,
                    b2 == ((w >> 16) & 0xff) as u8,
                    b3 == ((w >> 24) & 0xff) as u8,
                    b4 == ((w >> 32) & 0xff) as u8,
                    b5 == ((w >> 40) & 0xff) as u8,
                    b6 == ((w >> 48) & 0xff) as u8,
                    b7 == ((w >> 56) & 0xff) as u8,
            ;
        }
    }
    Some((v, pos + 8))
}

fn read_bool(bytes: &Vec<u8>, pos: usize) -> (r: Option<(bool, usize)>)
    ensures
        r matches Some((v, end)) ==> end == pos + 1 && matches_at(bytes@, pos as int, enc_bool(v)),
        forall|w: bool| #![trigger enc_bool(w)]
            matches_at(bytes@, pos as int, enc_bool(w)) ==> (r matches Some((v, end)) && v == w
                && end == pos + 1),
{
    if pos >= bytes.len() {
        return None;
    }
    let b = bytes[pos];
    if b == 1 {
        proof {
            assert(bytes@.subrange(pos as int, pos + 1) =~= enc_bool(true));
            assert forall|w: bool| #![trigger enc_bool(w)]
                matches_at(bytes@, pos as int, enc_bool(w)) implies w == true by {
                assert(bytes@.subrange(pos as int, pos + 1)[0] == enc_bool(w)[0]);
            }
        }
        Some((true, pos + 1))
    } else if b == 0 {
        proof {
            assert(bytes@.subrange(pos as int, pos + 1) =~= enc_bool(false));
            assert forall|w: bool| #![trigger enc_bool(w)]
                matches_at(bytes@, pos as int, enc_bool(w)) implies w == false by {
                assert(bytes@.subrange(pos as int, pos + 1)[0] == enc_bool(w)[0]);
            }
        }
        Some((false, pos + 1))
    } else {
        proof {
            assert forall|w: bool| #![trigger enc_bool(w)]
                !matches_at(bytes@, pos as int, enc_bool(w)) by {
                if matches_at(bytes@, pos as int, enc_bool(w)) {
                    assert(bytes@.subrange(pos as int, pos + 1)[0] == enc_bool(w)[0]);
                }
            }
        }
        None
    }
}

fn read_string(bytes: &Vec<u8>, pos: usize) -> (r: Option<(String, usize)>)
    ensures
        r matches Some((v, end)) ==> pos <= end <= bytes@.len() && matches_at(
            bytes@,
            pos as int,
            enc_string(v@),
        ) && end == pos + enc_string(v@).len(),
        forall|w: Seq<char>| #![trigger enc_string(w)]
            matches_at(bytes@, pos as int, enc_string(w)) ==> (r matches Some((v, end)) && v@ == w
                && end == pos + enc_string(w).len()),
{
    let n_pos = match read_u64(bytes, pos) {
        Some(p) => p,
        None => {
            proof {
                assert forall|w: Seq<char>| #![trigger enc_string(w)]
                    !matches_at(bytes@, pos as int, enc_string(w)) by {
                    if matches_at(bytes@, pos as int, enc_string(w)) {
                        let len64 = encode_utf8(w).len() as u64;
                        lemma_split_match(bytes@, pos as int, enc_u64(len64), encode_utf8(w));
                    }
                }
            }
            return None;
        },
    };
    let (n, p1) = n_pos;
    if n > (bytes.len() - p1) as u64 {
        proof {
            assert forall|w: Seq<char>| #![trigger enc_string(w)]
                !matches_at(bytes@, pos as int, enc_string(w)) by {
                if matches_at(bytes@, pos as int, enc_string(w)) {
                    let len64 = encode_utf8(w).len() as u64;
                    lemma_split_match(bytes@, pos as int, enc_u64(len64), encode_utf8(w));
                }
            }
        }
        return None;
    }
    let end = p1 + n as usize;
    let sub = slice_subrange(bytes.as_slice(), p1, end);
    match core::str::from_utf8(sub) {
        Ok(s) => {
            let owned = s.to_owned();
            proof {
                let e = encode_utf8(s@);
                assert(bytes@.subrange(p1 as int, end as int) == e);
                assert(matches_at(bytes@, p1 as int, e));
                assert(e.len() as u64 == n);
                assert(matches_at(bytes@, pos as int, enc_u64(n)));
                lemma_join_match(bytes@, pos as int, enc_u64(n), e);
                assert(enc_u64(n) + e == enc_string(s@));
                assert forall|w: Seq<char>| #![trigger enc_string(w)]
                    matches_at(bytes@, pos as int, enc_string(w)) implies owned@ == w && end
                    == pos + enc_string(w).len() by {
                    let len64 = encode_utf8(w).len() as u64;
                    lemma_split_match(bytes@, pos as int, enc_u64(len64), encode_utf8(w));
                    assert(n == len64);
                    assert(encode_utf8(w).len() < 0x1_0000_0000_0000_0000);
                    assert(bytes@.subrange(p1 as int, p1 + encode_utf8(w).len()) == encode_utf8(w));
                    assert(sub@ == encode_utf8(w));
                    encode_utf8_decode_utf8(s@);
                    encode_utf8_decode_utf8(w);
                    assert(s@ == w);
                }
            }
            Some((owned, end))
        },
        Err(_) => {
            proof {
                assert forall|w: Seq<char>| #![trigger enc_string(w)]
                    !matches_at(bytes@, pos as int, enc_string(w)) by {
                    if matches_at(bytes@, pos as int, enc_string(w)) {
                        let len64 = encode_utf8(w).len() as u64;
                        lemma_split_match(bytes@, pos as int, enc_u64(len64), encode_utf8(w));
                        assert(n == len64);
                        assert(encode_utf8(w).len() < 0x1_0000_0000_0000_0000);
                        assert(bytes@.subrange(p1 as int, p1 + encode_utf8(w).len())
                            == encode_utf8(w));
                        assert(sub@ == encode_utf8(w));
                        encode_utf8_valid_utf8(w);
                        assert(false);
                    }
                }
            }
            None
        },
    }
}

fn read_opt_string(bytes: &Vec<u8>, pos: usize) -> (r: Option<(Option<String>, usize)>)
    ensures
        r matches Some((v, end)) ==> pos <= end <= bytes@.len() && matches_at(
            bytes@,
            pos as int,
            enc_opt_string(v.deep_view()),
        ) && end == pos + enc_opt_string(v.deep_view()).len(),
        forall|w: Option<Seq<char>>| #![trigger enc_opt_string(w)]
            matches_at(bytes@, pos as int, enc_opt_string(w)) ==> (r matches Some((v, end))
                && v.deep_view() == w && end == pos + enc_opt_string(w).len()),
{
    if pos >= bytes.len() {
        proof {
            assert forall|w: Option<Seq<char>>| #![trigger enc_opt_string(w)]
                !matches_at(bytes@, pos as int, enc_opt_string(w)) by {
                assert(enc_opt_string(w).len() >= 1);
            }
        }
        return None;
    }
    let tag = bytes[pos];
    if tag == 0 {
        proof {
            assert(bytes@.subrange(pos as int, pos + 1) =~= enc_opt_string(None));
            assert forall|w: Option<Seq<char>>| #![trigger enc_opt_string(w)]
                matches_at(bytes@, pos as int, enc_opt_string(w)) implies w is None by {
                assert(bytes@.subrange(pos as int, pos + enc_opt_string(w).len())[0]
                    == enc_opt_string(w)[0]);
            }
        }
        Some((None, pos + 1))
    } else if tag == 1 {
        match read_string(bytes, pos + 1) {
            Some((s, end)) => {
                proof {
                    assert(bytes@.subrange(pos as int, pos + 1) =~= seq![1u8]);
                    lemma_join_match(bytes@, pos as int, seq![1u8], enc_string(s@));
                    assert(seq![1u8] + enc_string(s@) == enc_opt_string(Some(s@)));
                    assert forall|w: Option<Seq<char>>| #![trigger enc_opt_string(w)]
                        matches_at(bytes@, pos as int, enc_opt_string(w)) implies (match w {
                        Some(ws) => Some(s@) =~= Some(ws),
                        None => false,
                    }) && end == pos + enc_opt_string(w).len() by {
                        assert(bytes@.subrange(pos as int, pos + enc_opt_string(w).len())[0]
                            == enc_opt_string(w)[0]);
                        match w {
                            Some(ws) => {
                                assert(enc_opt_string(w) == seq![1u8] + enc_string(ws));
                                lemma_split_match(bytes@, pos as int, seq![1u8], enc_string(ws));
                            },
                            None => {},
                        }
                    }
                }
                Some((Some(s), end))
            },
            None => {
                proof {
                    assert forall|w: Option<Seq<char>>| #![trigger enc_opt_string(w)]
                        !matches_at(bytes@, pos as int, enc_opt_string(w)) by {
                        if matches_at(bytes@, pos as int, enc_opt_string(w)) {
                            assert(bytes@.subrange(pos as int, pos + enc_opt_string(w).len())[0]
                                == enc_opt_string(w)[0]);
                            match w {
                                Some(ws) => {
                                    assert(enc_opt_string(w) == seq![1u8] + enc_string(ws));
                                    lemma_split_match(
                                        bytes@,
                                        pos as int,
                                        seq![1u8],
                                        enc_string(ws),
                                    );
                                },
                                None => {},
                            }
                        }
                    }
                }
                None
            },
        }
    } else {
        proof {
            assert forall|w: Option<Seq<char>>| #![trigger enc_opt_string(w)]
                !matches_at(bytes@, pos as int, enc_opt_string(w)) by {
                if matches_at(bytes@, pos as int, enc_opt_string(w)) {
                    assert(bytes@.subrange(pos as int, pos + enc_opt_string(w).len())[0]
                        == enc_opt_string(w)[0]);
                }
            }
        }
        None
    }
}

/// The reconciliation flag set, one byte per flag.
pub open spec fn enc_configs(c: ReconciliationConfigs) -> Seq<u8> {
    enc_bool(c.should_check_for_duplicate_records_in_comparison_file) + (enc_bool(
        c.should_reconciliation_be_case_sensitive,
    ) + (enc_bool(c.should_ignore_white_space) + enc_bool(c.should_do_reverse_reconciliation)))
}

/// A file role as one byte.
pub open spec fn enc_file_type(t: ReconFileType) -> Seq<u8> {
    match t {
        ReconFileType::PrimaryFile => seq![1u8],
        ReconFileType::ComparisonFile => seq![2u8],
    }
}

/// A queue reference: its topic, then its optional offset marker.
pub open spec fn enc_queue(q: FileChunkQueueView) -> Seq<u8> {
    enc_string(q.topic_id) + enc_opt_string(q.last_acknowledged_id)
}

/// The first half of a task record: identifier, file references, state bits.
pub open spec fn enc_task_head(
    id: Seq<char>,
    pf: Option<Seq<char>>,
    cf: Option<Seq<char>>,
    is_done: bool,
    has_begun: bool,
) -> Seq<u8> {
    enc_string(id) + (enc_opt_string(pf) + (enc_opt_string(cf) + (enc_bool(is_done) + enc_bool(
        has_begun,
    ))))
}

/// The second half of a task record: rules, options and queue references.
pub open spec fn enc_task_tail(
    pairs: Seq<ComparisonPair>,
    cfg: ReconciliationConfigs,
    results_q: FileChunkQueueView,
    primary_q: FileChunkQueueView,
    comparison_q: FileChunkQueueView,
) -> Seq<u8> {
    enc_pairs(pairs) + (enc_configs(cfg) + (enc_queue(results_q) + (enc_queue(primary_q)
        + enc_queue(comparison_q))))
}

/// The full encoding of a task record.
pub open spec fn spec_encode_task_details(t: ReconTaskDetailsView) -> Seq<u8> {
    enc_task_head(t.id, t.primary_file_id, t.comparison_file_id, t.is_done, t.has_begun)
        + enc_task_tail(
        t.comparison_pairs,
        t.recon_config,
        t.recon_results_queue_info,
        t.primary_file_chunks_queue_info,
        t.comparison_file_chunks_queue_info,
    )
}

/// The first half of a file-metadata record: identifier, name, row count.
pub open spec fn enc_file_head(id: Seq<char>, name: Seq<char>, row_count: u64) -> Seq<u8> {
    enc_string(id) + (enc_string(name) + enc_u64(row_count))
}

/// The second half of a file-metadata record: delimiters, role, headers, hash.
pub open spec fn enc_file_tail(
    delimiters: Seq<Seq<char>>,
    role: ReconFileType,
    headers: Seq<Seq<char>>,
    hash: Seq<char>,
) -> Seq<u8> {
    enc_strings(delimiters) + (enc_file_type(role) + (enc_strings(headers) + enc_string(hash)))
}

/// The full encoding of a file-metadata record.
pub open spec fn spec_encode_file_metadata(m: ReconFileMetaDataView) -> Seq<u8> {
    enc_file_head(m.id, m.file_name, m.row_count) + enc_file_tail(
        m.column_delimiters,
        m.recon_file_type,
        m.column_headers,
        m.file_hash,
    )
}

fn write_strings(out: &mut Vec<u8>, v: &Vec<String>)
    ensures
        final(out)@ == old(out)@ + enc_strings(v.deep_view()),
{
    write_u64(out, v.len() as u64);
    let ghost mid = out@;
    let mut i: usize = 0;
    while i < v.len()
        invariant
            i <= v@.len(),
            out@ == mid + enc_string_seq(v.deep_view().take(i as int)),
        decreases v@.len() - i,
    {
        write_string(out, v[i].as_str());
        proof {
            let dv = v.deep_view();
            assert(dv.take(i + 1) =~= dv.take(i as int) + seq![dv[i as int]]);
            lemma_enc_string_seq_concat(dv.take(i as int), seq![dv[i as int]]);
            let single = seq![dv[i as int]];
            assert(single.len() == 1 && single[0] == dv[i as int]);
            assert(single.drop_first() =~= Seq::<Seq<char>>::empty());
            assert(enc_string_seq(Seq::<Seq<char>>::empty()) == Seq::<u8>::empty());
            assert(enc_string_seq(single) =~= enc_string(dv[i as int]));
            assert(out@ =~= mid + enc_string_seq(dv.take(i + 1)));
        }
        i += 1;
    }
    proof {
        assert(v.deep_view().take(v@.len() as int) =~= v.deep_view());
        assert(out@ =~= old(out)@ + enc_strings(v.deep_view()));
    }
}

fn write_pair(out: &mut Vec<u8>, p: &ComparisonPair)
    ensures
        final(out)@ == old(out)@ + enc_pair(*p),
{
    write_u64(out, p.primary_file_column_index as u64);
    write_u64(out, p.comparison_file_column_index as u64);
    write_bool(out, p.is_row_identifier);
    proof {
        assert(out@ =~= old(out)@ + enc_pair(*p));
    }
}

fn write_pairs(out: &mut Vec<u8>, v: &Vec<ComparisonPair>)
    ensures
        final(out)@ == old(out)@ + enc_pairs(v@),
{
    write_u64(out, v.len() as u64);
    let ghost mid = out@;
    let mut i: usize = 0;
    while i < v.len()
        invariant
            i <= v@.len(),
            out@ == mid + enc_pair_seq(v@.take(i as int)),
        decreases v@.len() - i,
    {
        write_pair(out, &v[i]);
        proof {
            assert(v@.take(i + 1) =~= v@.take(i as int) + seq![v@[i as int]]);
            lemma_enc_pair_seq_concat(v@.take(i as int), seq![v@[i as int]]);
            let single = seq![v@[i as int]];
            assert(single.len() == 1 && single[0] == v@[i as int]);
            assert(single.drop_first() =~= Seq::<ComparisonPair>::empty());
            assert(enc_pair_seq(Seq::<ComparisonPair>::empty()) == Seq::<u8>::empty());
            assert(enc_pair_seq(single) =~= enc_pair(v@[i as int]));
            assert(out@ =~= mid + enc_pair_seq(v@.take(i + 1)));
        }
        i += 1;
    }
    proof {
        assert(v@.take(v@.len() as int) =~= v@);
        assert(out@ =~= old(out)@ + enc_pairs(v@));
    }
}

fn write_configs(out: &mut Vec<u8>, c: &ReconciliationConfigs)
    ensures
        final(out)@ == old(out)@ + enc_configs(*c),
{
    write_bool(out, c.should_check_for_duplicate_records_in_comparison_file);
    write_bool(out, c.should_reconciliation_be_case_sensitive);
    write_bool(out, c.should_ignore_white_space);
    write_bool(out, c.should_do_reverse_reconciliation);
    proof {
        assert(out@ =~= old(out)@ + enc_configs(*c));
    }
}

fn write_file_type(out: &mut Vec<u8>, t: &ReconFileType)
    ensures
        final(out)@ == old(out)@ + enc_file_type(*t),
{
    match t {
        ReconFileType::PrimaryFile => out.push(1u8),
        ReconFileType::ComparisonFile => out.push(2u8),
    }
    proof {
        assert(out@ =~= old(out)@ + enc_file_type(*t));
    }
}

fn write_queue(out: &mut Vec<u8>, q: &FileChunkQueue)
    ensures
        final(out)@ == old(out)@ + enc_queue(q@),
{
    write_string(out, q.topic_id.as_str());
    write_opt_string(out, &q.last_acknowledged_id);
    proof {
        assert(out@ =~= old(out)@ + enc_queue(q@));
    }
}

fn read_pair(bytes: &Vec<u8>, pos: usize) -> (r: Option<(ComparisonPair, usize)>)
    ensures
        r matches Some((v, end)) ==> pos <= end <= bytes@.len() && matches_at(
            bytes@,
            pos as int,
            enc_pair(v),
        ) && end == pos + enc_pair(v).len(),
        forall|w: ComparisonPair| #![trigger enc_pair(w)]
            matches_at(bytes@, pos as int, enc_pair(w)) ==> (r matches Some((v, end)) && v == w
                && end == pos + enc_pair(w).len()),
{
    let a_pos = match read_u64(bytes, pos) {
        Some(x) => x,
        None => {
            proof {
                assert forall|w: ComparisonPair| #![trigger enc_pair(w)]
                    !matches_at(bytes@, pos as int, enc_pair(w)) by {
                    if matches_at(bytes@, pos as int, enc_pair(w)) {
                        lemma_split_match(
                            bytes@,
                            pos as int,
                            enc_u64(w.primary_file_column_index as u64),
                            enc_u64(w.comparison_file_column_index as u64) + enc_bool(
                                w.is_row_identifier,
                            ),
                        );
                    }
                }
            }
            return None;
        },
    };
    let (a, p1) = a_pos;
    let b_pos = match read_u64(bytes, p1) {
        Some(x) => x,
        None => {
            proof {
                assert forall|w: ComparisonPair| #![trigger enc_pair(w)]
                    !matches_at(bytes@, pos as int, enc_pair(w)) by {
                    if matches_at(bytes@, pos as int, enc_pair(w)) {
                        lemma_split_match(
                            bytes@,
                            pos as int,
                            enc_u64(w.primary_file_column_index as u64),
                            enc_u64(w.comparison_file_column_index as u64) + enc_bool(
                                w.is_row_identifier,
                            ),
                        );
                        lemma_split_match(
                            bytes@,
                            pos + 8,
                            enc_u64(w.comparison_file_column_index as u64),
                            enc_bool(w.is_row_identifier),
                        );
                    }
                }
            }
            return None;
        },
    };
    let (b, p2) = b_pos;
    let c_pos = match read_bool(bytes, p2) {
        Some(x) => x,
        None => {
            proof {
                assert forall|w: ComparisonPair| #![trigger enc_pair(w)]
                    !matches_at(bytes@, pos as int, enc_pair(w)) by {
                    if matches_at(bytes@, pos as int, enc_pair(w)) {
                        lemma_split_match(
                            bytes@,
                            pos as int,
                            enc_u64(w.primary_file_column_index as u64),
                            enc_u64(w.comparison_file_column_index as u64) + enc_bool(
                                w.is_row_identifier,
                            ),
                        );
                        lemma_split_match(
                            bytes@,
                            pos + 8,
                            enc_u64(w.comparison_file_column_index as u64),
                            enc_bool(w.is_row_identifier),
                        );
                    }
                }
            }
            return None;
        },
    };
    let (c, p3) = c_pos;
    if a > usize::MAX as u64 || b > usize::MAX as u64 {
        proof {
            assert forall|w: ComparisonPair| #![trigger enc_pair(w)]
                !matches_at(bytes@, pos as int, enc_pair(w)) by {
                if matches_at(bytes@, pos as int, enc_pair(w)) {
                    lemma_split_match(
                        bytes@,
                        pos as int,
                        enc_u64(w.primary_file_column_index as u64),
                        enc_u64(w.comparison_file_column_index as u64) + enc_bool(
                            w.is_row_identifier,
                        ),
                    );
                    lemma_split_match(
                        bytes@,
                        pos + 8,
                        enc_u64(w.comparison_file_column_index as u64),
                        enc_bool(w.is_row_identifier),
                    );
                    assert(w.primary_file_column_index as u64 <= usize::MAX as u64);
                    assert(w.comparison_file_column_index as u64 <= usize::MAX as u64);
                }
            }
        }
        return None;
    }
    let v = ComparisonPair {
        primary_file_column_index: a as usize,
        comparison_file_column_index: b as usize,
        is_row_identifier: c,
    };
    proof {
        assert(v.primary_file_column_index as u64 == a);
        assert(v.comparison_file_column_index as u64 == b);
        lemma_join_match(bytes@, p1 as int, enc_u64(b), enc_bool(c));
        lemma_join_match(bytes@, pos as int, enc_u64(a), enc_u64(b) + enc_bool(c));
        assert(enc_u64(a) + (enc_u64(b) + enc_bool(c)) == enc_pair(v));
        assert forall|w: ComparisonPair| #![trigger enc_pair(w)]
            matches_at(bytes@, pos as int, enc_pair(w)) implies v == w && p3 == pos + enc_pair(
            w,
        ).len() by {
            lemma_split_match(
                bytes@,
                pos as int,
                enc_u64(w.primary_file_column_index as u64),
                enc_u64(w.comparison_file_column_index as u64) + enc_bool(w.is_row_identifier),
            );
            lemma_split_match(
                bytes@,
                pos + 8,
                enc_u64(w.comparison_file_column_index as u64),
                enc_bool(w.is_row_identifier),
            );
            assert(a == w.primary_file_column_index as u64);
            assert(b == w.comparison_file_column_index as u64);
            assert(c == w.is_row_identifier);
        }
    }
    Some((v, p3))
}

fn read_pairs(bytes: &Vec<u8>, pos: usize) -> (r: Option<(Vec<ComparisonPair>, usize)>)
    ensures
        r matches Some((v, end)) ==> pos <= end <= bytes@.len() && matches_at(
            bytes@,
            pos as int,
            enc_pairs(v@),
        ) && end == pos + enc_pairs(v@).len(),
        forall|w: Seq<ComparisonPair>| #![trigger enc_pairs(w)]
            matches_at(bytes@, pos as int, enc_pairs(w)) ==> (r matches Some((v, end)) && v@ == w
                && end == pos + enc_pairs(w).len()),
{
    let _len = bytes.len();
    let n_pos = match read_u64(bytes, pos) {
        Some(x) => x,
        None => {
            proof {
                assert forall|w: Seq<ComparisonPair>| #![trigger enc_pairs(w)]
                    !matches_at(bytes@, pos as int, enc_pairs(w)) by {
                    if matches_at(bytes@, pos as int, enc_pairs(w)) {
                        lemma_split_match(
                            bytes@,
                            pos as int,
                            enc_u64(w.len() as u64),
                            enc_pair_seq(w),
                        );
                    }
                }
            }
            return None;
        },
    };
    let (n, p1) = n_pos;
    let mut out: Vec<ComparisonPair> = Vec::new();
    let mut cur: usize = p1;
    let mut i: u64 = 0;
    proof {
        assert(bytes@.subrange(p1 as int, p1 as int) =~= enc_pair_seq(out@));
        assert forall|w: Seq<ComparisonPair>| #![trigger enc_pairs(w)]
            matches_at(bytes@, pos as int, enc_pairs(w)) implies w.len() == n && out@ == w.take(
            0,
        ) by {
            lemma_enc_pair_seq_len(w);
            lemma_split_match(bytes@, pos as int, enc_u64(w.len() as u64), enc_pair_seq(w));
            assert(w.len() < 0x1_0000_0000_0000_0000);
            assert(out@ =~= w.take(0));
        }
    }
    while i < n
        invariant
            pos + 8 == p1 <= cur <= bytes@.len(),
            i <= n,
            matches_at(bytes@, pos as int, enc_u64(n)),
            out@.len() == i,
            matches_at(bytes@, p1 as int, enc_pair_seq(out@)),
            cur == p1 + enc_pair_seq(out@).len(),
            forall|w: Seq<ComparisonPair>| #![trigger enc_pairs(w)]
                matches_at(bytes@, pos as int, enc_pairs(w)) ==> w.len() == n && out@ == w.take(
                    i as int,
                ),
        decreases n - i,
    {
        let ghost prev = out@;
        let p_pos = match read_pair(bytes, cur) {
            Some(x) => x,
            None => {
                proof {
                    assert forall|w: Seq<ComparisonPair>| #![trigger enc_pairs(w)]
                        !matches_at(bytes@, pos as int, enc_pairs(w)) by {
                        if matches_at(bytes@, pos as int, enc_pairs(w)) {
                            let wt = w.take(i as int);
                            let ws = w.skip(i as int);
                            assert(w =~= wt + ws);
                            lemma_enc_pair_seq_concat(wt, ws);
                            lemma_split_match(bytes@, pos as int, enc_u64(n), enc_pair_seq(w));
                            lemma_split_match(
                                bytes@,
                                p1 as int,
                                enc_pair_seq(wt),
                                enc_pair_seq(ws),
                            );
                            assert(ws.len() > 0);
                            assert(ws[0] == w[i as int]);
                            lemma_split_match(
                                bytes@,
                                cur as int,
                                enc_pair(ws[0]),
                                enc_pair_seq(ws.drop_first()),
                            );
                        }
                    }
                }
                return None;
            },
        };
        let (p, nxt) = p_pos;
        out.push(p);
        proof {
            let single = seq![p];
            assert(single.len() == 1 && single[0] == p);
            assert(single.drop_first() =~= Seq::<ComparisonPair>::empty());
            assert(enc_pair_seq(Seq::<ComparisonPair>::empty()) == Seq::<u8>::empty());
            assert(enc_pair_seq(single) =~= enc_pair(p));
            assert(out@ =~= prev + single);
            lemma_enc_pair_seq_concat(prev, single);
            lemma_join_match(bytes@, p1 as int, enc_pair_seq(prev), enc_pair(p));
            assert forall|w: Seq<ComparisonPair>| #![trigger enc_pairs(w)]
                matches_at(bytes@, pos as int, enc_pairs(w)) implies w.len() == n && out@
                == w.take(i + 1) by {
                let wt = w.take(i as int);
                let ws = w.skip(i as int);
                assert(w =~= wt + ws);
                lemma_enc_pair_seq_concat(wt, ws);
                lemma_split_match(bytes@, pos as int, enc_u64(n), enc_pair_seq(w));
                lemma_split_match(bytes@, p1 as int, enc_pair_seq(wt), enc_pair_seq(ws));
                assert(ws.len() > 0);
                assert(ws[0] == w[i as int]);
                lemma_split_match(
                    bytes@,
                    cur as int,
                    enc_pair(ws[0]),
                    enc_pair_seq(ws.drop_first()),
                );
                assert(p == w[i as int]);
                assert(out@ =~= w.take(i + 1));
            }
        }
        cur = nxt;
        i = i + 1;
    }
    proof {
        assert(out@.len() as u64 == n);
        lemma_join_match(bytes@, pos as int, enc_u64(n), enc_pair_seq(out@));
        assert(enc_u64(n) + enc_pair_seq(out@) == enc_pairs(out@));
        assert forall|w: Seq<ComparisonPair>| #![trigger enc_pairs(w)]
            matches_at(bytes@, pos as int, enc_pairs(w)) implies out@ == w && cur == pos
            + enc_pairs(w).len() by {
            assert(out@ == w.take(i as int));
            assert(w.take(i as int) =~= w);
            lemma_split_match(bytes@, pos as int, enc_u64(n), enc_pair_seq(w));
        }
    }
    Some((out, cur))
}

fn read_strings(bytes: &Vec<u8>, pos: usize) -> (r: Option<(Vec<String>, usize)>)
    ensures
        r matches Some((v, end)) ==> pos <= end <= bytes@.len() && matches_at(
            bytes@,
            pos as int,
            enc_strings(v.deep_view()),
        ) && end == pos + enc_strings(v.deep_view()).len(),
        forall|w: Seq<Seq<char>>| #![trigger enc_strings(w)]
            matches_at(bytes@, pos as int, enc_strings(w)) ==> (r matches Some((v, end))
                && v.deep_view() == w && end == pos + enc_strings(w).len()),
{
    let _len = bytes.len();
    let n_pos = match read_u64(bytes, pos) {
        Some(x) => x,
        None => {
            proof {
                assert forall|w: Seq<Seq<char>>| #![trigger enc_strings(w)]
                    !matches_at(bytes@, pos as int, enc_strings(w)) by {
                    if matches_at(bytes@, pos as int, enc_strings(w)) {
                        lemma_split_match(
                            bytes@,
                            pos as int,
                            enc_u64(w.len() as u64),
                            enc_string_seq(w),
                        );
                    }
                }
            }
            return None;
        },
    };
    let (n, p1) = n_pos;
    let mut out: Vec<String> = Vec::new();
    let mut cur: usize = p1;
    let mut i: u64 = 0;
    proof {
        assert(out.deep_view() =~= Seq::<Seq<char>>::empty());
        assert(bytes@.subrange(p1 as int, p1 as int) =~= enc_string_seq(out.deep_view()));
        assert forall|w: Seq<Seq<char>>| #![trigger enc_strings(w)]
            matches_at(bytes@, pos as int, enc_strings(w)) implies w.len() == n && out.deep_view()
            == w.take(0) by {
            lemma_enc_string_seq_len(w);
            lemma_split_match(bytes@, pos as int, enc_u64(w.len() as u64), enc_string_seq(w));
            assert(w.len() < 0x1_0000_0000_0000_0000);
            assert(out.deep_view() =~= w.take(0));
        }
    }
    while i < n
        invariant
            pos + 8 == p1 <= cur <= bytes@.len(),
            i <= n,
            matches_at(bytes@, pos as int, enc_u64(n)),
            out.deep_view().len() == i,
            matches_at(bytes@, p1 as int, enc_string_seq(out.deep_view())),
            cur == p1 + enc_string_seq(out.deep_view()).len(),
            forall|w: Seq<Seq<char>>| #![trigger enc_strings(w)]
                matches_at(bytes@, pos as int, enc_strings(w)) ==> w.len() == n && out.deep_view()
                    == w.take(i as int),
        decreases n - i,
    {
        let ghost prev = out.deep_view();
        let s_pos = match read_string(bytes, cur) {
            Some(x) => x,
            None => {
                proof {
                    assert forall|w: Seq<Seq<char>>| #![trigger enc_strings(w)]
                        !matches_at(bytes@, pos as int, enc_strings(w)) by {
                        if matches_at(bytes@, pos as int, enc_strings(w)) {
                            let wt = w.take(i as int);
                            let ws = w.skip(i as int);
                            assert(w =~= wt + ws);
                            lemma_enc_string_seq_concat(wt, ws);
                            lemma_split_match(bytes@, pos as int, enc_u64(n), enc_string_seq(w));
                            lemma_split_match(
                                bytes@,
                                p1 as int,
                                enc_string_seq(wt),
                                enc_string_seq(ws),
                            );
                            assert(ws.len() > 0);
                            assert(ws[0] == w[i as int]);
                            lemma_split_match(
                                bytes@,
                                cur as int,
                                enc_string(ws[0]),
                                enc_string_seq(ws.drop_first()),
                            );
                        }
                    }
                }
                return None;
            },
        };
        let (s, nxt) = s_pos;
        let ghost sv = s@;
        out.push(s);
        proof {
            let single = seq![sv];
            assert(single.len() == 1 && single[0] == sv);
            assert(single.drop_first() =~= Seq::<Seq<char>>::empty());
            assert(enc_string_seq(Seq::<Seq<char>>::empty()) == Seq::<u8>::empty());
            assert(enc_string_seq(single) =~= enc_string(sv));
            assert(out.deep_view() =~= prev + single);
            lemma_enc_string_seq_concat(prev, single);
            lemma_join_match(bytes@, p1 as int, enc_string_seq(prev), enc_string(sv));
            assert forall|w: Seq<Seq<char>>| #![trigger enc_strings(w)]
                matches_at(bytes@, pos as int, enc_strings(w)) implies w.len() == n
                && out.deep_view() == w.take(i + 1) by {
                let wt = w.take(i as int);
                let ws = w.skip(i as int);
                assert(w =~= wt + ws);
                lemma_enc_string_seq_concat(wt, ws);
                lemma_split_match(bytes@, pos as int, enc_u64(n), enc_string_seq(w));
                lemma_split_match(bytes@, p1 as int, enc_string_seq(wt), enc_string_seq(ws));
                assert(ws.len() > 0);
                assert(ws[0] == w[i as int]);
                lemma_split_match(
                    bytes@,
                    cur as int,
                    enc_string(ws[0]),
                    enc_string_seq(ws.drop_first()),
                );
                assert(sv == w[i as int]);
                assert(out.deep_view() =~= w.take(i + 1));
            }
        }
        cur = nxt;
        i = i + 1;
    }
    proof {
        assert(out.deep_view().len() as u64 == n);
        lemma_join_match(bytes@, pos as int, enc_u64(n), enc_string_seq(out.deep_view()));
        assert(enc_u64(n) + enc_string_seq(out.deep_view()) == enc_strings(out.deep_view()));
        assert forall|w: Seq<Seq<char>>| #![trigger enc_strings(w)]
            matches_at(bytes@, pos as int, enc_strings(w)) implies out.deep_view() == w && cur
            == pos + enc_strings(w).len() by {
            assert(out.deep_view() == w.take(i as int));
            assert(w.take(i as int) =~= w);
            lemma_split_match(bytes@, pos as int, enc_u64(n), enc_string_seq(w));
        }
    }
    Some((out, cur))
}

fn read_configs(bytes: &Vec<u8>, pos: usize) -> (r: Option<(ReconciliationConfigs, usize)>)
    ensures
        r matches Some((v, end)) ==> pos <= end <= bytes@.len() && matches_at(
            bytes@,
            pos as int,
            enc_configs(v),
        ) && end == pos + enc_configs(v).len(),
        forall|w: ReconciliationConfigs| #![trigger enc_configs(w)]
            matches_at(bytes@, pos as int, enc_configs(w)) ==> (r matches Some((v, end)) && v == w
                && end == pos + enc_configs(w).len()),
{
    proof {
        assert forall|w: ReconciliationConfigs| #![trigger enc_configs(w)]
            matches_at(bytes@, pos as int, enc_configs(w)) implies {
            &&& matches_at(
                bytes@,
                pos as int,
                enc_bool(w.should_check_for_duplicate_records_in_comparison_file),
            )
            &&& matches_at(bytes@, pos + 1, enc_bool(w.should_reconciliation_be_case_sensitive))
            &&& matches_at(bytes@, pos + 2, enc_bool(w.should_ignore_white_space))
            &&& matches_at(bytes@, pos + 3, enc_bool(w.should_do_reverse_reconciliation))
        } by {
            lemma_split_match(
                bytes@,
                pos as int,
                enc_bool(w.should_check_for_duplicate_records_in_comparison_file),
                enc_bool(w.should_reconciliation_be_case_sensitive) + (enc_bool(
                    w.should_ignore_white_space,
                ) + enc_bool(w.should_do_reverse_reconciliation)),
            );
            lemma_split_match(
                bytes@,
                pos + 1,
                enc_bool(w.should_reconciliation_be_case_sensitive),
                enc_bool(w.should_ignore_white_space) + enc_bool(
                    w.should_do_reverse_reconciliation,
                ),
            );
            lemma_split_match(
                bytes@,
                pos + 2,
                enc_bool(w.should_ignore_white_space),
                enc_bool(w.should_do_reverse_reconciliation),
            );
        }
    }
    let a_pos = match read_bool(bytes, pos) {
        Some(x) => x,
        None => {
            return None;
        },
    };
    let (a, q1) = a_pos;
    let b_pos = match read_bool(bytes, q1) {
        Some(x) => x,
        None => {
            return None;
        },
    };
    let (b, q2) = b_pos;
    let c_pos = match read_bool(bytes, q2) {
        Some(x) => x,
        None => {
            return None;
        },
    };
    let (c, q3) = c_pos;
    let d_pos = match read_bool(bytes, q3) {
        Some(x) => x,
        None => {
            return None;
        },
    };
    let (d, q4) = d_pos;
    let v = ReconciliationConfigs {
        should_check_for_duplicate_records_in_comparison_file: a,
        should_reconciliation_be_case_sensitive: b,
        should_ignore_white_space: c,
        should_do_reverse_reconciliation: d,
    };
    proof {
        lemma_join_match(bytes@, q2 as int, enc_bool(c), enc_bool(d));
        lemma_join_match(bytes@, q1 as int, enc_bool(b), enc_bool(c) + enc_bool(d));
        lemma_join_match(bytes@, pos as int, enc_bool(a), enc_bool(b) + (enc_bool(c) + enc_bool(
            d,
        )));
        assert(enc_bool(a) + (enc_bool(b) + (enc_bool(c) + enc_bool(d))) == enc_configs(v));
    }
    Some((v, q4))
}

fn read_file_type(bytes: &Vec<u8>, pos: usize) -> (r: Option<(ReconFileType, usize)>)
    ensures
        r matches Some((v, end)) ==> end == pos + 1 && matches_at(
            bytes@,
            pos as int,
            enc_file_type(v),
        ),
        forall|w: ReconFileType| #![trigger enc_file_type(w)]
            matches_at(bytes@, pos as int, enc_file_type(w)) ==> (r matches Some((v, end)) && v
                == w && end == pos + 1),
{
    if pos >= bytes.len() {
        return None;
    }
    let b = bytes[pos];
    if b == 1 {
        proof {
            assert(bytes@.subrange(pos as int, pos + 1) =~= enc_file_type(
                ReconFileType::PrimaryFile,
            ));
            assert forall|w: ReconFileType| #![trigger enc_file_type(w)]
                matches_at(bytes@, pos as int, enc_file_type(w)) implies w
                == ReconFileType::PrimaryFile by {
                assert(bytes@.subrange(pos as int, pos + 1)[0] == enc_file_type(w)[0]);
            }
        }
        Some((ReconFileType::PrimaryFile, pos + 1))
    } else if b == 2 {
        proof {
            assert(bytes@.subrange(pos as int, pos + 1) =~= enc_file_type(
                ReconFileType::ComparisonFile,
            ));
            assert forall|w: ReconFileType| #![trigger enc_file_type(w)]
                matches_at(bytes@, pos as int, enc_file_type(w)) implies w
                == ReconFileType::ComparisonFile by {
                assert(bytes@.subrange(pos as int, pos + 1)[0] == enc_file_type(w)[0]);
            }
        }
        Some((ReconFileType::ComparisonFile, pos + 1))
    } else {
        proof {
            assert forall|w: ReconFileType| #![trigger enc_file_type(w)]
                !matches_at(bytes@, pos as int, enc_file_type(w)) by {
                if matches_at(bytes@, pos as int, enc_file_type(w)) {
                    assert(bytes@.subrange(pos as int, pos + 1)[0] == enc_file_type(w)[0]);
                }
            }
        }
        None
    }
}

fn read_queue(bytes: &Vec<u8>, pos: usize) -> (r: Option<(FileChunkQueue, usize)>)
    ensures
        r matches Some((v, end)) ==> pos <= end <= bytes@.len() && matches_at(
            bytes@,
            pos as int,
            enc_queue(v@),
        ) && end == pos + enc_queue(v@).len(),
        forall|w: FileChunkQueueView| #![trigger enc_queue(w)]
            matches_at(bytes@, pos as int, enc_queue(w)) ==> (r matches Some((v, end)) && v@ == w
                && end == pos + enc_queue(w).len()),
{
    let t_pos = match read_string(bytes, pos) {
        Some(x) => x,
        None => {
            proof {
                assert forall|w: FileChunkQueueView| #![trigger enc_queue(w)]
                    !matches_at(bytes@, pos as int, enc_queue(w)) by {
                    if matches_at(bytes@, pos as int, enc_queue(w)) {
                        lemma_split_match(
                            bytes@,
                            pos as int,
                            enc_string(w.topic_id),
                            enc_opt_string(w.last_acknowledged_id),
                        );
                    }
                }
            }
            return None;
        },
    };
    let (topic, q1) = t_pos;
    let o_pos = match read_opt_string(bytes, q1) {
        Some(x) => x,
        None => {
            proof {
                assert forall|w: FileChunkQueueView| #![trigger enc_queue(w)]
                    !matches_at(bytes@, pos as int, enc_queue(w)) by {
                    if matches_at(bytes@, pos as int, enc_queue(w)) {
                        lemma_split_match(
                            bytes@,
                            pos as int,
                            enc_string(w.topic_id),
                            enc_opt_string(w.last_acknowledged_id),
                        );
                    }
                }
            }
            return None;
        },
    };
    let (marker, q2) = o_pos;
    let v = FileChunkQueue { topic_id: topic, last_acknowledged_id: marker };
    proof {
        assert(v@.last_acknowledged_id == v.last_acknowledged_id.deep_view());
        lemma_join_match(
            bytes@,
            pos as int,
            enc_string(v@.topic_id),
            enc_opt_string(v@.last_acknowledged_id),
        );
        assert(enc_string(v@.topic_id) + enc_opt_string(v@.last_acknowledged_id) == enc_queue(v@));
        assert forall|w: FileChunkQueueView| #![trigger enc_queue(w)]
            matches_at(bytes@, pos as int, enc_queue(w)) implies v@ == w && q2 == pos + enc_queue(
            w,
        ).len() by {
            lemma_split_match(
                bytes@,
                pos as int,
                enc_string(w.topic_id),
                enc_opt_string(w.last_acknowledged_id),
            );
            assert(topic@ == w.topic_id);
            assert(marker.deep_view() == w.last_acknowledged_id);
            assert(v@ =~= w);
        }
    }
    Some((v, q2))
}

/// Serializes the first half of a task record.
fn write_task_head(out: &mut Vec<u8>, t: &ReconTaskDetails)
    ensures
        final(out)@ == old(out)@ + enc_task_head(
            t@.id,
            t@.primary_file_id,
            t@.comparison_file_id,
            t@.is_done,
            t@.has_begun,
        ),
{
    write_string(out, t.id.as_str());
    write_opt_string(out, &t.primary_file_id);
    write_opt_string(out, &t.comparison_file_id);
    write_bool(out, t.is_done);
    write_bool(out, t.has_begun);
    proof {
        assert(out@ =~= old(out)@ + enc_task_head(
            t@.id,
            t@.primary_file_id,
            t@.comparison_file_id,
            t@.is_done,
            t@.has_begun,
        ));
    }
}

/// Serializes the second half of a task record.
fn write_task_tail(out: &mut Vec<u8>, t: &ReconTaskDetails)
    ensures
        final(out)@ == old(out)@ + enc_task_tail(
            t@.comparison_pairs,
            t@.recon_config,
            t@.recon_results_queue_info,
            t@.primary_file_chunks_queue_info,
            t@.comparison_file_chunks_queue_info,
        ),
{
    write_pairs(out, &t.comparison_pairs);
    write_configs(out, &t.recon_config);
    write_queue(out, &t.recon_results_queue_info);
    write_queue(out, &t.primary_file_chunks_queue_info);
    write_queue(out, &t.comparison_file_chunks_queue_info);
    proof {
        assert(out@ =~= old(out)@ + enc_task_tail(
            t@.comparison_pairs,
            t@.recon_config,
            t@.recon_results_queue_info,
            t@.primary_file_chunks_queue_info,
            t@.comparison_file_chunks_queue_info,
        ));
    }
}

/// Serializes a task record.
pub fn encode_task_details(t: &ReconTaskDetails) -> (out: Vec<u8>)
    ensures
        out@ == spec_encode_task_details(t@),
{
    let mut out: Vec<u8> = Vec::new();
    write_task_head(&mut out, t);
    write_task_tail(&mut out, t);
    proof {
        assert(out@ =~= spec_encode_task_details(t@));
    }
    out
}

/// Deserializes the first half of a task record.
fn read_task_head(bytes: &Vec<u8>, pos: usize) -> (r: Option<
    ((String, Option<String>, Option<String>, bool, bool), usize),
>)
    ensures
        r matches Some((v, end)) ==> pos <= end <= bytes@.len() && matches_at(
            bytes@,
            pos as int,
            enc_task_head(v.0@, v.1.deep_view(), v.2.deep_view(), v.3, v.4),
        ) && end == pos + enc_task_head(v.0@, v.1.deep_view(), v.2.deep_view(), v.3, v.4).len(),
        forall|a: Seq<char>, b: Option<Seq<char>>, c: Option<Seq<char>>, d: bool, e: bool|
            #![trigger enc_task_head(a, b, c, d, e)]
            matches_at(bytes@, pos as int, enc_task_head(a, b, c, d, e)) ==> (r matches Some(
                (v, end),
            ) && v.0@ == a && v.1.deep_view() == b && v.2.deep_view() == c && v.3 == d && v.4 == e
                && end == pos + enc_task_head(a, b, c, d, e).len()),
{
    let r1 = match read_string(bytes, pos) {
        Some(x) => x,
        None => {
            proof {
                assert forall|
                    a: Seq<char>,
                    b: Option<Seq<char>>,
                    c: Option<Seq<char>>,
                    d: bool,
                    e: bool,
                |
                    #![trigger enc_task_head(a, b, c, d, e)]
                    !matches_at(bytes@, pos as int, enc_task_head(a, b, c, d, e)) by {
                    if matches_at(bytes@, pos as int, enc_task_head(a, b, c, d, e)) {
                        lemma_split_match(
                            bytes@,
                            pos as int,
                            enc_string(a),
                            enc_opt_string(b) + (enc_opt_string(c) + (enc_bool(d) + enc_bool(e))),
                        );
                    }
                }
            }
            return None;
        },
    };
    let (id, p1) = r1;
    let r2 = match read_opt_string(bytes, p1) {
        Some(x) => x,
        None => {
            proof {
                assert forall|
                    a: Seq<char>,
                    b: Option<Seq<char>>,
                    c: Option<Seq<char>>,
                    d: bool,
                    e: bool,
                |
                    #![trigger enc_task_head(a, b, c, d, e)]
                    !matches_at(bytes@, pos as int, enc_task_head(a, b, c, d, e)) by {
                    if matches_at(bytes@, pos as int, enc_task_head(a, b, c, d, e)) {
                        lemma_split_match(
                            bytes@,
                            pos as int,
                            enc_string(a),
                            enc_opt_string(b) + (enc_opt_string(c) + (enc_bool(d) + enc_bool(e))),
                        );
                        assert(p1 == pos + enc_string(a).len());
                        lemma_split_match(
                            bytes@,
                            p1 as int,
                            enc_opt_string(b),
                            enc_opt_string(c) + (enc_bool(d) + enc_bool(e)),
                        );
                    }
                }
            }
            return None;
        },
    };
    let (primary_file_id, p2) = r2;
    let r3 = match read_opt_string(bytes, p2) {
        Some(x) => x,
        None => {
            proof {
                assert forall|
                    a: Seq<char>,
                    b: Option<Seq<char>>,
                    c: Option<Seq<char>>,
                    d: bool,
                    e: bool,
                |
                    #![trigger enc_task_head(a, b, c, d, e)]
                    !matches_at(bytes@, pos as int, enc_task_head(a, b, c, d, e)) by {
                    if matches_at(bytes@, pos as int, enc_task_head(a, b, c, d, e)) {
                        lemma_split_match(
                            bytes@,
                            pos as int,
                            enc_string(a),
                            enc_opt_string(b) + (enc_opt_string(c) + (enc_bool(d) + enc_bool(e))),
                        );
                        assert(p1 == pos + enc_string(a).len());
                        lemma_split_match(
                            bytes@,
                            p1 as int,
                            enc_opt_string(b),
                            enc_opt_string(c) + (enc_bool(d) + enc_bool(e)),
                        );
                        assert(p2 == p1 + enc_opt_string(b).len());
                        lemma_split_match(
                            bytes@,
                            p2 as int,
                            enc_opt_string(c),
                            enc_bool(d) + enc_bool(e),
                        );
                    }
                }
            }
            return None;
        },
    };
    let (comparison_file_id, p3) = r3;
    let r4 = match read_bool(bytes, p3) {
        Some(x) => x,
        None => {
            proof {
                assert forall|
                    a: Seq<char>,
                    b: Option<Seq<char>>,
                    c: Option<Seq<char>>,
                    d: bool,
                    e: bool,
                |
                    #![trigger enc_task_head(a, b, c, d, e)]
                    !matches_at(bytes@, pos as int, enc_task_head(a, b, c, d, e)) by {
                    if matches_at(bytes@, pos as int, enc_task_head(a, b, c, d, e)) {
                        lemma_split_match(
                            bytes@,
                            pos as int,
                            enc_string(a),
                            enc_opt_string(b) + (enc_opt_string(c) + (enc_bool(d) + enc_bool(e))),
                        );
                        assert(p1 == pos + enc_string(a).len());
                        lemma_split_match(
                            bytes@,
                            p1 as int,
                            enc_opt_string(b),
                            enc_opt_string(c) + (enc_bool(d) + enc_bool(e)),
                        );
                        assert(p2 == p1 + enc_opt_string(b).len());
                        lemma_split_match(
                            bytes@,
                            p2 as int,
                            enc_opt_string(c),
                            enc_bool(d) + enc_bool(e),
                        );
                        assert(p3 == p2 + enc_opt_string(c).len());
                        lemma_split_match(bytes@, p3 as int, enc_bool(d), enc_bool(e));
                    }
                }
            }
            return None;
        },
    };
    let (is_done, p4) = r4;
    let r5 = match read_bool(bytes, p4) {
        Some(x) => x,
        None => {
            proof {
                assert forall|
                    a: Seq<char>,
                    b: Option<Seq<char>>,
                    c: Option<Seq<char>>,
                    d: bool,
                    e: bool,
                |
                    #![trigger enc_task_head(a, b, c, d, e)]
                    !matches_at(bytes@, pos as int, enc_task_head(a, b, c, d, e)) by {
                    if matches_at(bytes@, pos as int, enc_task_head(a, b, c, d, e)) {
                        lemma_split_match(
                            bytes@,
                            pos as int,
                            enc_string(a),
                            enc_opt_string(b) + (enc_opt_string(c) + (enc_bool(d) + enc_bool(e))),
                        );
                        assert(p1 == pos + enc_string(a).len());
                        lemma_split_match(
                            bytes@,
                            p1 as int,
                            enc_opt_string(b),
                            enc_opt_string(c) + (enc_bool(d) + enc_bool(e)),
                        );
                        assert(p2 == p1 + enc_opt_string(b).len());
                        lemma_split_match(
                            bytes@,
                            p2 as int,
                            enc_opt_string(c),
                            enc_bool(d) + enc_bool(e),
                        );
                        assert(p3 == p2 + enc_opt_string(c).len());
                        lemma_split_match(bytes@, p3 as int, enc_bool(d), enc_bool(e));
                        assert(p4 == p3 + 1);
                    }
                }
            }
            return None;
        },
    };
    let (has_begun, p5) = r5;
    let v = (id, primary_file_id, comparison_file_id, is_done, has_begun);
    proof {
        lemma_join_match(bytes@, p3 as int, enc_bool(v.3), enc_bool(v.4));
        lemma_join_match(
            bytes@,
            p2 as int,
            enc_opt_string(v.2.deep_view()),
            enc_bool(v.3) + enc_bool(v.4),
        );
        lemma_join_match(
            bytes@,
            p1 as int,
            enc_opt_string(v.1.deep_view()),
            enc_opt_string(v.2.deep_view()) + (enc_bool(v.3) + enc_bool(v.4)),
        );
        lemma_join_match(
            bytes@,
            pos as int,
            enc_string(v.0@),
            enc_opt_string(v.1.deep_view()) + (enc_opt_string(v.2.deep_view()) + (enc_bool(v.3)
                + enc_bool(v.4))),
        );
        assert(matches_at(
            bytes@,
            pos as int,
            enc_task_head(v.0@, v.1.deep_view(), v.2.deep_view(), v.3, v.4),
        ));
        assert forall|a: Seq<char>, b: Option<Seq<char>>, c: Option<Seq<char>>, d: bool, e: bool|
            #![trigger enc_task_head(a, b, c, d, e)]
            matches_at(bytes@, pos as int, enc_task_head(a, b, c, d, e)) implies v.0@ == a
            && v.1.deep_view() == b && v.2.deep_view() == c && v.3 == d && v.4 == e && p5 == pos
            + enc_task_head(a, b, c, d, e).len() by {
            lemma_split_match(
                bytes@,
                pos as int,
                enc_string(a),
                enc_opt_string(b) + (enc_opt_string(c) + (enc_bool(d) + enc_bool(e))),
            );
            assert(p1 == pos + enc_string(a).len());
            lemma_split_match(
                bytes@,
                p1 as int,
                enc_opt_string(b),
                enc_opt_string(c) + (enc_bool(d) + enc_bool(e)),
            );
            assert(p2 == p1 + enc_opt_string(b).len());
            lemma_split_match(bytes@, p2 as int, enc_opt_string(c), enc_bool(d) + enc_bool(e));
            assert(p3 == p2 + enc_opt_string(c).len());
            lemma_split_match(bytes@, p3 as int, enc_bool(d), enc_bool(e));
            assert(p4 == p3 + 1);
        }
    }
    Some((v, p5))
}

/// Deserializes the second half of a task record.
fn read_task_tail(bytes: &Vec<u8>, pos: usize) -> (r: Option<
    (
        (Vec<ComparisonPair>, ReconciliationConfigs, FileChunkQueue, FileChunkQueue, FileChunkQueue),
        usize,
    ),
>)
    ensures
        r matches Some((v, end)) ==> pos <= end <= bytes@.len() && matches_at(
            bytes@,
            pos as int,
            enc_task_tail(v.0@, v.1, v.2@, v.3@, v.4@),
        ) && end == pos + enc_task_tail(v.0@, v.1, v.2@, v.3@, v.4@).len(),
        forall|
            ps: Seq<ComparisonPair>,
            cfg: ReconciliationConfigs,
            q1: FileChunkQueueView,
            q2: FileChunkQueueView,
            q3: FileChunkQueueView,
        |
            #![trigger enc_task_tail(ps, cfg, q1, q2, q3)]
            matches_at(bytes@, pos as int, enc_task_tail(ps, cfg, q1, q2, q3)) ==> (
            r matches Some((v, end)) && v.0@ == ps && v.1 == cfg && v.2@ == q1 && v.3@ == q2
                && v.4@ == q3 && end == pos + enc_task_tail(ps, cfg, q1, q2, q3).len()),
{
    let r1 = match read_pairs(bytes, pos) {
        Some(x) => x,
        None => {
            proof {
                assert forall|
                    ps: Seq<ComparisonPair>,
                    cfg: ReconciliationConfigs,
                    q1: FileChunkQueueView,
                    q2: FileChunkQueueView,
                    q3: FileChunkQueueView,
                |
                    #![trigger enc_task_tail(ps, cfg, q1, q2, q3)]
                    !matches_at(bytes@, pos as int, enc_task_tail(ps, cfg, q1, q2, q3)) by {
                    if matches_at(bytes@, pos as int, enc_task_tail(ps, cfg, q1, q2, q3)) {
                        lemma_split_match(
                            bytes@,
                            pos as int,
                            enc_pairs(ps),
                            enc_configs(cfg) + (enc_queue(q1) + (enc_queue(q2) + enc_queue(q3))),
                        );
                    }
                }
            }
            return None;
        },
    };
    let (pairs, p1) = r1;
    let r2 = match read_configs(bytes, p1) {
        Some(x) => x,
        None => {
            proof {
                assert forall|
                    ps: Seq<ComparisonPair>,
                    cfg: ReconciliationConfigs,
                    q1: FileChunkQueueView,
                    q2: FileChunkQueueView,
                    q3: FileChunkQueueView,
                |
                    #![trigger enc_task_tail(ps, cfg, q1, q2, q3)]
                    !matches_at(bytes@, pos as int, enc_task_tail(ps, cfg, q1, q2, q3)) by {
                    if matches_at(bytes@, pos as int, enc_task_tail(ps, cfg, q1, q2, q3)) {
                        lemma_split_match(
                            bytes@,
                            pos as int,
                            enc_pairs(ps),
                            enc_configs(cfg) + (enc_queue(q1) + (enc_queue(q2) + enc_queue(q3))),
                        );
                        assert(p1 == pos + enc_pairs(ps).len());
                        lemma_split_match(
                            bytes@,
                            p1 as int,
                            enc_configs(cfg),
                            enc_queue(q1) + (enc_queue(q2) + enc_queue(q3)),
                        );
                    }
                }
            }
            return None;
        },
    };
    let (cfg, p2) = r2;
    let r3 = match read_queue(bytes, p2) {
        Some(x) => x,
        None => {
            proof {
                assert forall|
                    ps: Seq<ComparisonPair>,
                    cfg: ReconciliationConfigs,
                    q1: FileChunkQueueView,
                    q2: FileChunkQueueView,
                    q3: FileChunkQueueView,
                |
                    #![trigger enc_task_tail(ps, cfg, q1, q2, q3)]
                    !matches_at(bytes@, pos as int, enc_task_tail(ps, cfg, q1, q2, q3)) by {
                    if matches_at(bytes@, pos as int, enc_task_tail(ps, cfg, q1, q2, q3)) {
                        lemma_split_match(
                            bytes@,
                            pos as int,
                            enc_pairs(ps),
                            enc_configs(cfg) + (enc_queue(q1) + (enc_queue(q2) + enc_queue(q3))),
                        );
                        assert(p1 == pos + enc_pairs(ps).len());
                        lemma_split_match(
                            bytes@,
                            p1 as int,
                            enc_configs(cfg),
                            enc_queue(q1) + (enc_queue(q2) + enc_queue(q3)),
                        );
                        assert(p2 == p1 + 4);
                        lemma_split_match(
                            bytes@,
                            p2 as int,
                            enc_queue(q1),
                            enc_queue(q2) + enc_queue(q3),
                        );
                    }
                }
            }
            return None;
        },
    };
    let (results_q, p3) = r3;
    let r4 = match read_queue(bytes, p3) {
        Some(x) => x,
        None => {
            proof {
                assert forall|
                    ps: Seq<ComparisonPair>,
                    cfg: ReconciliationConfigs,
                    q1: FileChunkQueueView,
                    q2: FileChunkQueueView,
                    q3: FileChunkQueueView,
                |
                    #![trigger enc_task_tail(ps, cfg, q1, q2, q3)]
                    !matches_at(bytes@, pos as int, enc_task_tail(ps, cfg, q1, q2, q3)) by {
                    if matches_at(bytes@, pos as int, enc_task_tail(ps, cfg, q1, q2, q3)) {
                        lemma_split_match(
                            bytes@,
                            pos as int,
                            enc_pairs(ps),
                            enc_configs(cfg) + (enc_queue(q1) + (enc_queue(q2) + enc_queue(q3))),
                        );
                        assert(p1 == pos + enc_pairs(ps).len());
                        lemma_split_match(
                            bytes@,
                            p1 as int,
                            enc_configs(cfg),
                            enc_queue(q1) + (enc_queue(q2) + enc_queue(q3)),
                        );
                        assert(p2 == p1 + 4);
                        lemma_split_match(
                            bytes@,
                            p2 as int,
                            enc_queue(q1),
                            enc_queue(q2) + enc_queue(q3),
                        );
                        assert(p3 == p2 + enc_queue(q1).len());
                        lemma_split_match(bytes@, p3 as int, enc_queue(q2), enc_queue(q3));
                    }
                }
            }
            return None;
        },
    };
    let (primary_q, p4) = r4;
    let r5 = match read_queue(bytes, p4) {
        Some(x) => x,
        None => {
            proof {
                assert forall|
                    ps: Seq<ComparisonPair>,
                    cfg: ReconciliationConfigs,
                    q1: FileChunkQueueView,
                    q2: FileChunkQueueView,
                    q3: FileChunkQueueView,
                |
                    #![trigger enc_task_tail(ps, cfg, q1, q2, q3)]
                    !matches_at(bytes@, pos as int, enc_task_tail(ps, cfg, q1, q2, q3)) by {
                    if matches_at(bytes@, pos as int, enc_task_tail(ps, cfg, q1, q2, q3)) {
                        lemma_split_match(
                            bytes@,
                            pos as int,
                            enc_pairs(ps),
                            enc_configs(cfg) + (enc_queue(q1) + (enc_queue(q2) + enc_queue(q3))),
                        );
                        assert(p1 == pos + enc_pairs(ps).len());
                        lemma_split_match(
                            bytes@,
                            p1 as int,
                            enc_configs(cfg),
                            enc_queue(q1) + (enc_queue(q2) + enc_queue(q3)),
                        );
                        assert(p2 == p1 + 4);
                        lemma_split_match(
                            bytes@,
                            p2 as int,
                            enc_queue(q1),
                            enc_queue(q2) + enc_queue(q3),
                        );
                        assert(p3 == p2 + enc_queue(q1).len());
                        lemma_split_match(bytes@, p3 as int, enc_queue(q2), enc_queue(q3));
                        assert(p4 == p3 + enc_queue(q2).len());
                    }
                }
            }
            return None;
        },
    };
    let (comparison_q, p5) = r5;
    let v = (pairs, cfg, results_q, primary_q, comparison_q);
    proof {
        lemma_join_match(bytes@, p3 as int, enc_queue(v.3@), enc_queue(v.4@));
        lemma_join_match(bytes@, p2 as int, enc_queue(v.2@), enc_queue(v.3@) + enc_queue(v.4@));
        lemma_join_match(
            bytes@,
            p1 as int,
            enc_configs(v.1),
            enc_queue(v.2@) + (enc_queue(v.3@) + enc_queue(v.4@)),
        );
        lemma_join_match(
            bytes@,
            pos as int,
            enc_pairs(v.0@),
            enc_configs(v.1) + (enc_queue(v.2@) + (enc_queue(v.3@) + enc_queue(v.4@))),
        );
        assert(matches_at(bytes@, pos as int, enc_task_tail(v.0@, v.1, v.2@, v.3@, v.4@)));
        assert forall|
            ps: Seq<ComparisonPair>,
            cfg2: ReconciliationConfigs,
            q1: FileChunkQueueView,
            q2: FileChunkQueueView,
            q3: FileChunkQueueView,
        |
            #![trigger enc_task_tail(ps, cfg2, q1, q2, q3)]
            matches_at(bytes@, pos as int, enc_task_tail(ps, cfg2, q1, q2, q3)) implies v.0@ == ps
            && v.1 == cfg2 && v.2@ == q1 && v.3@ == q2 && v.4@ == q3 && p5 == pos + enc_task_tail(
            ps,
            cfg2,
            q1,
            q2,
            q3,
        ).len() by {
            lemma_split_match(
                bytes@,
                pos as int,
                enc_pairs(ps),
                enc_configs(cfg2) + (enc_queue(q1) + (enc_queue(q2) + enc_queue(q3))),
            );
            assert(p1 == pos + enc_pairs(ps).len());
            lemma_split_match(
                bytes@,
                p1 as int,
                enc_configs(cfg2),
                enc_queue(q1) + (enc_queue(q2) + enc_queue(q3)),
            );
            assert(p2 == p1 + 4);
            lemma_split_match(bytes@, p2 as int, enc_queue(q1), enc_queue(q2) + enc_queue(q3));
            assert(p3 == p2 + enc_queue(q1).len());
            lemma_split_match(bytes@, p3 as int, enc_queue(q2), enc_queue(q3));
            assert(p4 == p3 + enc_queue(q2).len());
        }
    }
    Some((v, p5))
}

/// A whole-buffer task encoding splits into its head and tail halves.
proof fn lemma_task_whole_split(bytes: Seq<u8>, w: ReconTaskDetailsView)
    requires
        bytes == spec_encode_task_details(w),
    ensures
        matches_at(
            bytes,
            0,
            enc_task_head(w.id, w.primary_file_id, w.comparison_file_id, w.is_done, w.has_begun),
        ),
        matches_at(
            bytes,
            enc_task_head(
                w.id,
                w.primary_file_id,
                w.comparison_file_id,
                w.is_done,
                w.has_begun,
            ).len() as int,
            enc_task_tail(
                w.comparison_pairs,
                w.recon_config,
                w.recon_results_queue_info,
                w.primary_file_chunks_queue_info,
                w.comparison_file_chunks_queue_info,
            ),
        ),
        bytes.len() == enc_task_head(
            w.id,
            w.primary_file_id,
            w.comparison_file_id,
            w.is_done,
            w.has_begun,
        ).len() + enc_task_tail(
            w.comparison_pairs,
            w.recon_config,
            w.recon_results_queue_info,
            w.primary_file_chunks_queue_info,
            w.comparison_file_chunks_queue_info,
        ).len(),
{
    assert(bytes.subrange(0, spec_encode_task_details(w).len() as int) =~= bytes);
    assert(matches_at(bytes, 0, spec_encode_task_details(w)));
    lemma_split_match(
        bytes,
        0,
        enc_task_head(w.id, w.primary_file_id, w.comparison_file_id, w.is_done, w.has_begun),
        enc_task_tail(
            w.comparison_pairs,
            w.recon_config,
            w.recon_results_queue_info,
            w.primary_file_chunks_queue_info,
            w.comparison_file_chunks_queue_info,
        ),
    );
}

/// Deserializes a task record.  Returns `None` unless the whole input is
/// the encoding of exactly one task record, which is then returned.
#[verifier::rlimit(100)]
pub fn decode_task_details(bytes: &Vec<u8>) -> (r: Option<ReconTaskDetails>)
    ensures
        r matches Some(t) ==> bytes@ == spec_encode_task_details(t@),
        forall|w: ReconTaskDetailsView| #![trigger spec_encode_task_details(w)]
            bytes@ == spec_encode_task_details(w) ==> (r matches Some(t) && t@ == w),
{
    let rh = match read_task_head(bytes, 0) {
        Some(x) => x,
        None => {
            proof {
                assert forall|w: ReconTaskDetailsView| #![trigger spec_encode_task_details(w)]
                    bytes@ != spec_encode_task_details(w) by {
                    if bytes@ == spec_encode_task_details(w) {
                        lemma_task_whole_split(bytes@, w);
                        assert(false);
                    }
                }
            }
            return None;
        },
    };
    let (head, p5) = rh;
    let rt = match read_task_tail(bytes, p5) {
        Some(x) => x,
        None => {
            proof {
                assert forall|w: ReconTaskDetailsView| #![trigger spec_encode_task_details(w)]
                    bytes@ != spec_encode_task_details(w) by {
                    if bytes@ == spec_encode_task_details(w) {
                        lemma_task_whole_split(bytes@, w);
                        assert(p5 == enc_task_head(
                            w.id,
                            w.primary_file_id,
                            w.comparison_file_id,
                            w.is_done,
                            w.has_begun,
                        ).len());
                        assert(false);
                    }
                }
            }
            return None;
        },
    };
    let (tail, p10) = rt;
    if p10 != bytes.len() {
        proof {
            assert forall|w: ReconTaskDetailsView| #![trigger spec_encode_task_details(w)]
                bytes@ != spec_encode_task_details(w) by {
                if bytes@ == spec_encode_task_details(w) {
                    lemma_task_whole_split(bytes@, w);
                    assert(p5 == enc_task_head(
                        w.id,
                        w.primary_file_id,
                        w.comparison_file_id,
                        w.is_done,
                        w.has_begun,
                    ).len());
                    assert(p10 == bytes@.len());
                    assert(false);
                }
            }
        }
        return None;
    }
    let (id, primary_file_id, comparison_file_id, is_done, has_begun) = head;
    let (comparison_pairs, recon_config, recon_results_queue_info, primary_file_chunks_queue_info,
    comparison_file_chunks_queue_info) = tail;
    let t = ReconTaskDetails {
        id,
        primary_file_id,
        comparison_file_id,
        is_done,
        has_begun,
        comparison_pairs,
        recon_config,
        recon_results_queue_info,
        primary_file_chunks_queue_info,
        comparison_file_chunks_queue_info,
    };
    proof {
        lemma_join_match(
            bytes@,
            0,
            enc_task_head(t@.id, t@.primary_file_id, t@.comparison_file_id, t@.is_done, t@.has_begun),
            enc_task_tail(
                t@.comparison_pairs,
                t@.recon_config,
                t@.recon_results_queue_info,
                t@.primary_file_chunks_queue_info,
                t@.comparison_file_chunks_queue_info,
            ),
        );
        assert(matches_at(bytes@, 0, spec_encode_task_details(t@)));
        assert(bytes@.subrange(0, spec_encode_task_details(t@).len() as int) =~= bytes@);
        assert forall|w: ReconTaskDetailsView| #![trigger spec_encode_task_details(w)]
            bytes@ == spec_encode_task_details(w) implies t@ == w by {
            lemma_task_whole_split(bytes@, w);
            assert(p5 == enc_task_head(
                w.id,
                w.primary_file_id,
                w.comparison_file_id,
                w.is_done,
                w.has_begun,
            ).len());
            assert(t@ =~= w);
        }
    }
    Some(t)
}

/// Serializes the first half of a file-metadata record.
fn write_file_head(out: &mut Vec<u8>, m: &ReconFileMetaData)
    ensures
        final(out)@ == old(out)@ + enc_file_head(m@.id, m@.file_name, m@.row_count),
{
    write_string(out, m.id.as_str());
    write_string(out, m.file_name.as_str());
    write_u64(out, m.row_count);
    proof {
        assert(out@ =~= old(out)@ + enc_file_head(m@.id, m@.file_name, m@.row_count));
    }
}

/// Serializes the second half of a file-metadata record.
fn write_file_tail(out: &mut Vec<u8>, m: &ReconFileMetaData)
    ensures
        final(out)@ == old(out)@ + enc_file_tail(
            m@.column_delimiters,
            m@.recon_file_type,
            m@.column_headers,
            m@.file_hash,
        ),
{
    write_strings(out, &m.column_delimiters);
    write_file_type(out, &m.recon_file_type);
    write_strings(out, &m.column_headers);
    write_string(out, m.file_hash.as_str());
    proof {
        assert(out@ =~= old(out)@ + enc_file_tail(
            m@.column_delimiters,
            m@.recon_file_type,
            m@.column_headers,
            m@.file_hash,
        ));
    }
}

/// Serializes a file-metadata record.
pub fn encode_file_metadata(m: &ReconFileMetaData) -> (out: Vec<u8>)
    ensures
        out@ == spec_encode_file_metadata(m@),
{
    let mut out: Vec<u8> = Vec::new();
    write_file_head(&mut out, m);
    write_file_tail(&mut out, m);
    proof {
        assert(out@ =~= spec_encode_file_metadata(m@));
    }
    out
}

/// Deserializes the first half of a file-metadata record.
fn read_file_head(bytes: &Vec<u8>, pos: usize) -> (r: Option<((String, String, u64), usize)>)
    ensures
        r matches Some((v, end)) ==> pos <= end <= bytes@.len() && matches_at(
            bytes@,
            pos as int,
            enc_file_head(v.0@, v.1@, v.2),
        ) && end == pos + enc_file_head(v.0@, v.1@, v.2).len(),
        forall|a: Seq<char>, b: Seq<char>, c: u64| #![trigger enc_file_head(a, b, c)]
            matches_at(bytes@, pos as int, enc_file_head(a, b, c)) ==> (r matches Some((v, end))
                && v.0@ == a && v.1@ == b && v.2 == c && end == pos + enc_file_head(a, b, c).len()),
{
    let r1 = match read_string(bytes, pos) {
        Some(x) => x,
        None => {
            proof {
                assert forall|a: Seq<char>, b: Seq<char>, c: u64| #![trigger enc_file_head(a, b, c)]
                    !matches_at(bytes@, pos as int, enc_file_head(a, b, c)) by {
                    if matches_at(bytes@, pos as int, enc_file_head(a, b, c)) {
                        lemma_split_match(
                            bytes@,
                            pos as int,
                            enc_string(a),
                            enc_string(b) + enc_u64(c),
                        );
                    }
                }
            }
            return None;
        },
    };
    let (id, p1) = r1;
    let r2 = match read_string(bytes, p1) {
        Some(x) => x,
        None => {
            proof {
                assert forall|a: Seq<char>, b: Seq<char>, c: u64| #![trigger enc_file_head(a, b, c)]
                    !matches_at(bytes@, pos as int, enc_file_head(a, b, c)) by {
                    if matches_at(bytes@, pos as int, enc_file_head(a, b, c)) {
                        lemma_split_match(
                            bytes@,
                            pos as int,
                            enc_string(a),
                            enc_string(b) + enc_u64(c),
                        );
                        assert(p1 == pos + enc_string(a).len());
                        lemma_split_match(bytes@, p1 as int, enc_string(b), enc_u64(c));
                    }
                }
            }
            return None;
        },
    };
    let (file_name, p2) = r2;
    let r3 = match read_u64(bytes, p2) {
        Some(x) => x,
        None => {
            proof {
                assert forall|a: Seq<char>, b: Seq<char>, c: u64| #![trigger enc_file_head(a, b, c)]
                    !matches_at(bytes@, pos as int, enc_file_head(a, b, c)) by {
                    if matches_at(bytes@, pos as int, enc_file_head(a, b, c)) {
                        lemma_split_match(
                            bytes@,
                            pos as int,
                            enc_string(a),
                            enc_string(b) + enc_u64(c),
                        );
                        assert(p1 == pos + enc_string(a).len());
                        lemma_split_match(bytes@, p1 as int, enc_string(b), enc_u64(c));
                        assert(p2 == p1 + enc_string(b).len());
                    }
                }
            }
            return None;
        },
    };
    let (row_count, p3) = r3;
    let v = (id, file_name, row_count);
    proof {
        lemma_join_match(bytes@, p1 as int, enc_string(v.1@), enc_u64(v.2));
        lemma_join_match(bytes@, pos as int, enc_string(v.0@), enc_string(v.1@) + enc_u64(v.2));
        assert(matches_at(bytes@, pos as int, enc_file_head(v.0@, v.1@, v.2)));
        assert forall|a: Seq<char>, b: Seq<char>, c: u64| #![trigger enc_file_head(a, b, c)]
            matches_at(bytes@, pos as int, enc_file_head(a, b, c)) implies v.0@ == a && v.1@ == b
            && v.2 == c && p3 == pos + enc_file_head(a, b, c).len() by {
            lemma_split_match(bytes@, pos as int, enc_string(a), enc_string(b) + enc_u64(c));
            assert(p1 == pos + enc_string(a).len());
            lemma_split_match(bytes@, p1 as int, enc_string(b), enc_u64(c));
            assert(p2 == p1 + enc_string(b).len());
        }
    }
    Some((v, p3))
}

/// Deserializes the second half of a file-metadata record.
fn read_file_tail(bytes: &Vec<u8>, pos: usize) -> (r: Option<
    ((Vec<String>, ReconFileType, Vec<String>, String), usize),
>)
    ensures
        r matches Some((v, end)) ==> pos <= end <= bytes@.len() && matches_at(
            bytes@,
            pos as int,
            enc_file_tail(v.0.deep_view(), v.1, v.2.deep_view(), v.3@),
        ) && end == pos + enc_file_tail(v.0.deep_view(), v.1, v.2.deep_view(), v.3@).len(),
        forall|d: Seq<Seq<char>>, t: ReconFileType, h: Seq<Seq<char>>, s: Seq<char>|
            #![trigger enc_file_tail(d, t, h, s)]
            matches_at(bytes@, pos as int, enc_file_tail(d, t, h, s)) ==> (r matches Some((v, end))
                && v.0.deep_view() == d && v.1 == t && v.2.deep_view() == h && v.3@ == s && end
                == pos + enc_file_tail(d, t, h, s).len()),
{
    let r1 = match read_strings(bytes, pos) {
        Some(x) => x,
        None => {
            proof {
                assert forall|d: Seq<Seq<char>>, t: ReconFileType, h: Seq<Seq<char>>, s: Seq<char>|
                    #![trigger enc_file_tail(d, t, h, s)]
                    !matches_at(bytes@, pos as int, enc_file_tail(d, t, h, s)) by {
                    if matches_at(bytes@, pos as int, enc_file_tail(d, t, h, s)) {
                        lemma_split_match(
                            bytes@,
                            pos as int,
                            enc_strings(d),
                            enc_file_type(t) + (enc_strings(h) + enc_string(s)),
                        );
                    }
                }
            }
            return None;
        },
    };
    let (column_delimiters, p1) = r1;
    let r2 = match read_file_type(bytes, p1) {
        Some(x) => x,
        None => {
            proof {
                assert forall|d: Seq<Seq<char>>, t: ReconFileType, h: Seq<Seq<char>>, s: Seq<char>|
                    #![trigger enc_file_tail(d, t, h, s)]
                    !matches_at(bytes@, pos as int, enc_file_tail(d, t, h, s)) by {
                    if matches_at(bytes@, pos as int, enc_file_tail(d, t, h, s)) {
                        lemma_split_match(
                            bytes@,
                            pos as int,
                            enc_strings(d),
                            enc_file_type(t) + (enc_strings(h) + enc_string(s)),
                        );
                        assert(p1 == pos + enc_strings(d).len());
                        lemma_split_match(
                            bytes@,
                            p1 as int,
                            enc_file_type(t),
                            enc_strings(h) + enc_string(s),
                        );
                    }
                }
            }
            return None;
        },
    };
    let (recon_file_type, p2) = r2;
    let r3 = match read_strings(bytes, p2) {
        Some(x) => x,
        None => {
            proof {
                assert forall|d: Seq<Seq<char>>, t: ReconFileType, h: Seq<Seq<char>>, s: Seq<char>|
                    #![trigger enc_file_tail(d, t, h, s)]
                    !matches_at(bytes@, pos as int, enc_file_tail(d, t, h, s)) by {
                    if matches_at(bytes@, pos as int, enc_file_tail(d, t, h, s)) {
                        lemma_split_match(
                            bytes@,
                            pos as int,
                            enc_strings(d),
                            enc_file_type(t) + (enc_strings(h) + enc_string(s)),
                        );
                        assert(p1 == pos + enc_strings(d).len());
                        lemma_split_match(
                            bytes@,
                            p1 as int,
                            enc_file_type(t),
                            enc_strings(h) + enc_string(s),
                        );
                        assert(p2 == p1 + 1);
                        lemma_split_match(bytes@, p2 as int, enc_strings(h), enc_string(s));
                    }
                }
            }
            return None;
        },
    };
    let (column_headers, p3) = r3;
    let r4 = match read_string(bytes, p3) {
        Some(x) => x,
        None => {
            proof {
                assert forall|d: Seq<Seq<char>>, t: ReconFileType, h: Seq<Seq<char>>, s: Seq<char>|
                    #![trigger enc_file_tail(d, t, h, s)]
                    !matches_at(bytes@, pos as int, enc_file_tail(d, t, h, s)) by {
                    if matches_at(bytes@, pos as int, enc_file_tail(d, t, h, s)) {
                        lemma_split_match(
                            bytes@,
                            pos as int,
                            enc_strings(d),
                            enc_file_type(t) + (enc_strings(h) + enc_string(s)),
                        );
                        assert(p1 == pos + enc_strings(d).len());
                        lemma_split_match(
                            bytes@,
                            p1 as int,
                            enc_file_type(t),
                            enc_strings(h) + enc_string(s),
                        );
                        assert(p2 == p1 + 1);
                        lemma_split_match(bytes@, p2 as int, enc_strings(h), enc_string(s));
                        assert(p3 == p2 + enc_strings(h).len());
                    }
                }
            }
            return None;
        },
    };
    let (file_hash, p4) = r4;
    let v = (column_delimiters, recon_file_type, column_headers, file_hash);
    proof {
        lemma_join_match(bytes@, p2 as int, enc_strings(v.2.deep_view()), enc_string(v.3@));
        lemma_join_match(
            bytes@,
            p1 as int,
            enc_file_type(v.1),
            enc_strings(v.2.deep_view()) + enc_string(v.3@),
        );
        lemma_join_match(
            bytes@,
            pos as int,
            enc_strings(v.0.deep_view()),
            enc_file_type(v.1) + (enc_strings(v.2.deep_view()) + enc_string(v.3@)),
        );
        assert(matches_at(
            bytes@,
            pos as int,
            enc_file_tail(v.0.deep_view(), v.1, v.2.deep_view(), v.3@),
        ));
        assert forall|d: Seq<Seq<char>>, t: ReconFileType, h: Seq<Seq<char>>, s: Seq<char>|
            #![trigger enc_file_tail(d, t, h, s)]
            matches_at(bytes@, pos as int, enc_file_tail(d, t, h, s)) implies v.0.deep_view() == d
            && v.1 == t && v.2.deep_view() == h && v.3@ == s && p4 == pos + enc_file_tail(
            d,
            t,
            h,
            s,
        ).len() by {
            lemma_split_match(
                bytes@,
                pos as int,
                enc_strings(d),
                enc_file_type(t) + (enc_strings(h) + enc_string(s)),
            );
            assert(p1 == pos + enc_strings(d).len());
            lemma_split_match(bytes@, p1 as int, enc_file_type(t), enc_strings(h) + enc_string(s));
            assert(p2 == p1 + 1);
            lemma_split_match(bytes@, p2 as int, enc_strings(h), enc_string(s));
            assert(p3 == p2 + enc_strings(h).len());
        }
    }
    Some((v, p4))
}

/// A whole-buffer file-metadata encoding splits into its two halves.
proof fn lemma_file_whole_split(bytes: Seq<u8>, w: ReconFileMetaDataView)
    requires
        bytes == spec_encode_file_metadata(w),
    ensures
        matches_at(bytes, 0, enc_file_head(w.id, w.file_name, w.row_count)),
        matches_at(
            bytes,
            enc_file_head(w.id, w.file_name, w.row_count).len() as int,
            enc_file_tail(w.column_delimiters, w.recon_file_type, w.column_headers, w.file_hash),
        ),
        bytes.len() == enc_file_head(w.id, w.file_name, w.row_count).len() + enc_file_tail(
            w.column_delimiters,
            w.recon_file_type,
            w.column_headers,
            w.file_hash,
        ).len(),
{
    assert(bytes.subrange(0, spec_encode_file_metadata(w).len() as int) =~= bytes);
    assert(matches_at(bytes, 0, spec_encode_file_metadata(w)));
    lemma_split_match(
        bytes,
        0,
        enc_file_head(w.id, w.file_name, w.row_count),
        enc_file_tail(w.column_delimiters, w.recon_file_type, w.column_headers, w.file_hash),
    );
}

/// Deserializes a file-metadata record.  Returns `None` unless the whole
/// input is the encoding of exactly one record, which is then returned.
#[verifier::rlimit(100)]
pub fn decode_file_metadata(bytes: &Vec<u8>) -> (r: Option<ReconFileMetaData>)
    ensures
        r matches Some(m) ==> bytes@ == spec_encode_file_metadata(m@),
        forall|w: ReconFileMetaDataView| #![trigger spec_encode_file_metadata(w)]
            bytes@ == spec_encode_file_metadata(w) ==> (r matches Some(m) && m@ == w),
{
    let rh = match read_file_head(bytes, 0) {
        Some(x) => x,
        None => {
            proof {
                assert forall|w: ReconFileMetaDataView| #![trigger spec_encode_file_metadata(w)]
                    bytes@ != spec_encode_file_metadata(w) by {
                    if bytes@ == spec_encode_file_metadata(w) {
                        lemma_file_whole_split(bytes@, w);
                        assert(false);
                    }
                }
            }
            return None;
        },
    };
    let (head, p3) = rh;
    let rt = match read_file_tail(bytes, p3) {
        Some(x) => x,
        None => {
            proof {
                assert forall|w: ReconFileMetaDataView| #![trigger spec_encode_file_metadata(w)]
                    bytes@ != spec_encode_file_metadata(w) by {
                    if bytes@ == spec_encode_file_metadata(w) {
                        lemma_file_whole_split(bytes@, w);
                        assert(p3 == enc_file_head(w.id, w.file_name, w.row_count).len());
                        assert(false);
                    }
                }
            }
            return None;
        },
    };
    let (tail, p7) = rt;
    if p7 != bytes.len() {
        proof {
            assert forall|w: ReconFileMetaDataView| #![trigger spec_encode_file_metadata(w)]
                bytes@ != spec_encode_file_metadata(w) by {
                if bytes@ == spec_encode_file_metadata(w) {
                    lemma_file_whole_split(bytes@, w);
                    assert(p3 == enc_file_head(w.id, w.file_name, w.row_count).len());
                    assert(p7 == bytes@.len());
                    assert(false);
                }
            }
        }
        return None;
    }
    let (id, file_name, row_count) = head;
    let (column_delimiters, recon_file_type, column_headers, file_hash) = tail;
    let m = ReconFileMetaData {
        id,
        file_name,
        row_count,
        column_delimiters,
        recon_file_type,
        column_headers,
        file_hash,
    };
    proof {
        lemma_join_match(
            bytes@,
            0,
            enc_file_head(m@.id, m@.file_name, m@.row_count),
            enc_file_tail(
                m@.column_delimiters,
                m@.recon_file_type,
                m@.column_headers,
                m@.file_hash,
            ),
        );
        assert(matches_at(bytes@, 0, spec_encode_file_metadata(m@)));
        assert(bytes@.subrange(0, spec_encode_file_metadata(m@).len() as int) =~= bytes@);
        assert forall|w: ReconFileMetaDataView| #![trigger spec_encode_file_metadata(w)]
            bytes@ == spec_encode_file_metadata(w) implies m@ == w by {
            lemma_file_whole_split(bytes@, w);
            assert(p3 == enc_file_head(w.id, w.file_name, w.row_count).len());
            assert(m@ =~= w);
        }
    }
    Some(m)
}

} // verus!
