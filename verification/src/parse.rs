//! The record parser: raw delimited text for the two datasets becomes one
//! ordered sequence of (index, value) records.
//!
//! Dataset "M": every non-empty line contributes one record, either
//! (index, value) split on the first separator, or the sentinel
//! ("n/a", "malformed") when the separator is absent.
//! Dataset "K": only lines with a separator whose index is "36" or "38"
//! contribute; everything else is dropped.

use vstd::prelude::*;

use crate::scan::{find_in_range, first_idx, lemma_first_idx_at, subvec};
use crate::types::{records_model, Record};

verus! {

/// Line separator: '\n'.
pub const NL: u8 = 10;

/// Field separator: ';'.
pub const SEMI: u8 = 59;

/// The bytes of "n/a".
pub open spec fn na_bytes() -> Seq<u8> {
    seq![110u8, 47u8, 97u8]
}

/// The bytes of "malformed".
pub open spec fn malformed_bytes() -> Seq<u8> {
    seq![109u8, 97u8, 108u8, 102u8, 111u8, 114u8, 109u8, 101u8, 100u8]
}

/// The bytes of the index code "36".
pub open spec fn code36() -> Seq<u8> {
    seq![51u8, 54u8]
}

/// The bytes of the index code "38".
pub open spec fn code38() -> Seq<u8> {
    seq![51u8, 56u8]
}

/// The records that one dataset-M line contributes.
pub open spec fn m_line_records(line: Seq<u8>) -> Seq<(Seq<u8>, Seq<u8>)> {
    let i = first_idx(line, SEMI);
    if i < line.len() {
        seq![(line.subrange(0, i as int), line.subrange(i as int + 1, line.len() as int))]
    } else if line.len() > 0 {
        seq![(na_bytes(), malformed_bytes())]
    } else {
        seq![]
    }
}

/// The records that one dataset-K line contributes.
pub open spec fn k_line_records(line: Seq<u8>) -> Seq<(Seq<u8>, Seq<u8>)> {
    let i = first_idx(line, SEMI);
    if i < line.len() {
        let idx = line.subrange(0, i as int);
        if idx == code36() || idx == code38() {
            seq![(idx, line.subrange(i as int + 1, line.len() as int))]
        } else {
            seq![]
        }
    } else {
        seq![]
    }
}

/// The lines of `s`, split on every '\n'; splitting never drops a piece, so
/// an empty `s` still has one (empty) line.
pub open spec fn lines_of(s: Seq<u8>) -> Seq<Seq<u8>>
    decreases s.len(),
{
    let i = first_idx(s, NL);
    if i < s.len() {
        seq![s.subrange(0, i as int)] + lines_of(s.subrange(i as int + 1, s.len() as int))
    } else {
        seq![s]
    }
}

/// All records of dataset M, line by line in source order.
pub open spec fn m_records(s: Seq<u8>) -> Seq<(Seq<u8>, Seq<u8>)>
    decreases s.len(),
{
    let i = first_idx(s, NL);
    if i < s.len() {
        m_line_records(s.subrange(0, i as int)) + m_records(
            s.subrange(i as int + 1, s.len() as int),
        )
    } else {
        m_line_records(s)
    }
}

/// All records of dataset K, line by line in source order.
pub open spec fn k_records(s: Seq<u8>) -> Seq<(Seq<u8>, Seq<u8>)>
    decreases s.len(),
{
    let i = first_idx(s, NL);
    if i < s.len() {
        k_line_records(s.subrange(0, i as int)) + k_records(
            s.subrange(i as int + 1, s.len() as int),
        )
    } else {
        k_line_records(s)
    }
}

/// One snapshot's records: all of dataset M, then the filtered dataset K.
pub open spec fn snapshot_records(m: Seq<u8>, k: Seq<u8>) -> Seq<(Seq<u8>, Seq<u8>)> {
    m_records(m) + k_records(k)
}

/// The concatenation of the records of each line, in line order.
pub open spec fn m_records_of_lines(ls: Seq<Seq<u8>>) -> Seq<(Seq<u8>, Seq<u8>)>
    decreases ls.len(),
{
    if ls.len() == 0 {
        seq![]
    } else {
        m_line_records(ls[0]) + m_records_of_lines(ls.drop_first())
    }
}

/// The concatenation of the records of each line, in line order.
pub open spec fn k_records_of_lines(ls: Seq<Seq<u8>>) -> Seq<(Seq<u8>, Seq<u8>)>
    decreases ls.len(),
{
    if ls.len() == 0 {
        seq![]
    } else {
        k_line_records(ls[0]) + k_records_of_lines(ls.drop_first())
    }
}

/// Law: the dataset-M records are exactly the records of each line of the
/// raw text, concatenated in line order.
pub proof fn lemma_m_records_by_lines(s: Seq<u8>)
    ensures
        m_records(s) == m_records_of_lines(lines_of(s)),
    decreases s.len(),
{
    let i = first_idx(s, NL);
    let ls = lines_of(s);
    if i < s.len() {
        let rest = s.subrange(i as int + 1, s.len() as int);
        lemma_m_records_by_lines(rest);
        assert(ls[0] == s.subrange(0, i as int));
        assert(ls.drop_first() =~= lines_of(rest));
    } else {
        assert(ls[0] == s);
        assert(ls.drop_first() =~= Seq::<Seq<u8>>::empty());
        assert(m_records_of_lines(ls.drop_first()) =~= Seq::<(Seq<u8>, Seq<u8>)>::empty());
        assert(m_line_records(s) + m_records_of_lines(ls.drop_first()) =~= m_line_records(s));
    }
}

/// Law: the dataset-K records are exactly the records of each line of the
/// raw text, concatenated in line order.
pub proof fn lemma_k_records_by_lines(s: Seq<u8>)
    ensures
        k_records(s) == k_records_of_lines(lines_of(s)),
    decreases s.len(),
{
    let i = first_idx(s, NL);
    let ls = lines_of(s);
    if i < s.len() {
        let rest = s.subrange(i as int + 1, s.len() as int);
        lemma_k_records_by_lines(rest);
        assert(ls[0] == s.subrange(0, i as int));
        assert(ls.drop_first() =~= lines_of(rest));
    } else {
        assert(ls[0] == s);
        assert(ls.drop_first() =~= Seq::<Seq<u8>>::empty());
        assert(k_records_of_lines(ls.drop_first()) =~= Seq::<(Seq<u8>, Seq<u8>)>::empty());
        assert(k_line_records(s) + k_records_of_lines(ls.drop_first()) =~= k_line_records(s));
    }
}

/// Law: a well-formed dataset-M line — a separator at position `i` and
/// none before it — yields exactly the record (index, value) split there.
pub proof fn lemma_m_line_well_formed(line: Seq<u8>, i: int)
    requires
        0 <= i < line.len(),
        line[i] == SEMI,
        forall|j: int| 0 <= j < i ==> line[j] != SEMI,
    ensures
        m_line_records(line) == seq![
            (line.subrange(0, i), line.subrange(i + 1, line.len() as int)),
        ],
{
    lemma_first_idx_at(line, SEMI, i as nat);
}

/// Law: a non-empty dataset-M line without a separator yields exactly the
/// sentinel record ("n/a", "malformed").
pub proof fn lemma_m_line_sentinel(line: Seq<u8>)
    requires
        line.len() > 0,
        forall|j: int| 0 <= j < line.len() ==> line[j] != SEMI,
    ensures
        m_line_records(line) == seq![(na_bytes(), malformed_bytes())],
{
    lemma_first_idx_at(line, SEMI, line.len());
}

/// Law: a well-formed dataset-K line yields its record exactly when its
/// index is "36" or "38", and nothing otherwise.
pub proof fn lemma_k_line_well_formed(line: Seq<u8>, i: int)
    requires
        0 <= i < line.len(),
        line[i] == SEMI,
        forall|j: int| 0 <= j < i ==> line[j] != SEMI,
    ensures
        line.subrange(0, i) == code36() || line.subrange(0, i) == code38()
            ==> k_line_records(line) == seq![
            (line.subrange(0, i), line.subrange(i + 1, line.len() as int)),
        ],
        line.subrange(0, i) != code36() && line.subrange(0, i) != code38()
            ==> k_line_records(line) == Seq::<(Seq<u8>, Seq<u8>)>::empty(),
{
    lemma_first_idx_at(line, SEMI, i as nat);
}

/// Law: a dataset-K line without a separator yields nothing.
pub proof fn lemma_k_line_dropped(line: Seq<u8>)
    requires
        forall|j: int| 0 <= j < line.len() ==> line[j] != SEMI,
    ensures
        k_line_records(line) == Seq::<(Seq<u8>, Seq<u8>)>::empty(),
{
    lemma_first_idx_at(line, SEMI, line.len());
}

/// Law: every record drawn from dataset K carries the index "36" or "38".
pub proof fn lemma_k_records_only_codes(s: Seq<u8>)
    ensures
        forall|i: int|
            0 <= i < k_records(s).len() ==> ((#[trigger] k_records(s)[i]).0 == code36()
                || k_records(s)[i].0 == code38()),
    decreases s.len(),
{
    let n = first_idx(s, NL);
    if n < s.len() {
        let line = s.subrange(0, n as int);
        let rest = s.subrange(n as int + 1, s.len() as int);
        lemma_k_records_only_codes(rest);
        assert forall|i: int| 0 <= i < k_records(s).len() implies ((#[trigger] k_records(
            s,
        )[i]).0 == code36() || k_records(s)[i].0 == code38()) by {
            if i < k_line_records(line).len() {
                assert(k_records(s)[i] == k_line_records(line)[i]);
            } else {
                assert(k_records(s)[i] == k_records(rest)[i - k_line_records(line).len()]);
            }
        }
    } else {
        assert forall|i: int| 0 <= i < k_records(s).len() implies ((#[trigger] k_records(
            s,
        )[i]).0 == code36() || k_records(s)[i].0 == code38()) by {
            assert(k_records(s)[i] == k_line_records(s)[i]);
        }
    }
}

fn na_record() -> (r: Record)
    ensures
        r@ == (na_bytes(), malformed_bytes()),
{
    let mut index: Vec<u8> = Vec::new();
    index.push(110);
    index.push(47);
    index.push(97);
    let mut value: Vec<u8> = Vec::new();
    value.push(109);
    value.push(97);
    value.push(108);
    value.push(102);
    value.push(111);
    value.push(114);
    value.push(109);
    value.push(101);
    value.push(100);
    assert(index@ =~= na_bytes());
    assert(value@ =~= malformed_bytes());
    Record { index, value }
}

/// Does `v` hold exactly the two bytes `a`, `b`?
fn is_pair(v: &Vec<u8>, a: u8, b: u8) -> (r: bool)
    ensures
        r == (v@ == seq![a, b]),
{
    let r = v.len() == 2 && v[0] == a && v[1] == b;
    if r {
        assert(v@ =~= seq![a, b]);
    }
    r
}

/// Parse dataset M: one record per non-empty line, in line order, with the
/// sentinel pair standing in for a line without a separator.
pub fn parse_m(raw: &Vec<u8>) -> (r: Vec<Record>)
    ensures
        records_model(r@) == m_records(raw@),
{
    let len = raw.len();
    let mut out: Vec<Record> = Vec::new();
    let mut start: usize = 0;
    proof {
        assert(raw@.skip(0) =~= raw@);
        assert(records_model(out@) + m_records(raw@) =~= m_records(raw@));
    }
    loop
        invariant_except_break
            records_model(out@) + m_records(raw@.skip(start as int)) == m_records(raw@),
        invariant
            start <= len == raw@.len(),
        ensures
            records_model(out@) == m_records(raw@),
        decreases len - start,
    {
        let ghost suffix = raw@.skip(start as int);
        let j = find_in_range(raw, start, len, NL);
        proof {
            lemma_first_idx_at(suffix, NL, (j - start) as nat);
        }
        let ghost line = raw@.subrange(start as int, j as int);
        proof {
            assert(suffix.subrange(0, j - start) =~= line);
        }

        let i = find_in_range(raw, start, j, SEMI);
        proof {
            lemma_first_idx_at(line, SEMI, (i - start) as nat);
        }
        let ghost old_out = out@;
        if i < j {
            let index = subvec(raw, start, i);
            let value = subvec(raw, i + 1, j);
            proof {
                assert(line.subrange(0, i - start) =~= index@);
                assert(line.subrange(i - start + 1, line.len() as int) =~= value@);
            }
            out.push(Record { index, value });
        } else if j > start {
            out.push(na_record());
        }
        proof {
            assert(records_model(out@) =~= records_model(old_out) + m_line_records(line));
        }
        if j == len {
            proof {
                assert(suffix =~= line);
                assert(m_records(suffix) == m_line_records(line));
                assert(records_model(out@) == m_records(raw@));
            }
            break;
        }
        proof {
            assert(suffix.subrange(j - start + 1, suffix.len() as int) =~= raw@.skip(j + 1));
            assert(m_records(suffix) == m_line_records(line) + m_records(raw@.skip(j + 1)));
            assert((records_model(old_out) + m_line_records(line)) + m_records(raw@.skip(j + 1))
                =~= records_model(old_out) + (m_line_records(line) + m_records(raw@.skip(j + 1))));
            assert(records_model(out@) + m_records(raw@.skip(j + 1)) == m_records(raw@));
        }
        start = j + 1;
    }
    out
}

/// Parse dataset K: only lines with a separator and index "36" or "38"
/// contribute, in line order.
pub fn parse_k(raw: &Vec<u8>) -> (r: Vec<Record>)
    ensures
        records_model(r@) == k_records(raw@),
{
    let len = raw.len();
    let mut out: Vec<Record> = Vec::new();
    let mut start: usize = 0;
    proof {
        assert(raw@.skip(0) =~= raw@);
        assert(records_model(out@) + k_records(raw@) =~= k_records(raw@));
    }
    loop
        invariant_except_break
            records_model(out@) + k_records(raw@.skip(start as int)) == k_records(raw@),
        invariant
            start <= len == raw@.len(),
        ensures
            records_model(out@) == k_records(raw@),
        decreases len - start,
    {
        let ghost suffix = raw@.skip(start as int);
        let j = find_in_range(raw, start, len, NL);
        proof {
            lemma_first_idx_at(suffix, NL, (j - start) as nat);
        }
        let ghost line = raw@.subrange(start as int, j as int);
        proof {
            assert(suffix.subrange(0, j - start) =~= line);
        }

        let i = find_in_range(raw, start, j, SEMI);
        proof {
            lemma_first_idx_at(line, SEMI, (i - start) as nat);
        }
        let ghost old_out = out@;
        if i < j {
            let index = subvec(raw, start, i);
            proof {
                assert(line.subrange(0, i - start) =~= index@);
            }
            if is_pair(&index, 51, 54) || is_pair(&index, 51, 56) {
                let value = subvec(raw, i + 1, j);
                proof {
                    assert(line.subrange(i - start + 1, line.len() as int) =~= value@);
                }
                out.push(Record { index, value });
            }
        }
        proof {
            assert(records_model(out@) =~= records_model(old_out) + k_line_records(line));
        }
        if j == len {
            proof {
                assert(suffix =~= line);
                assert(k_records(suffix) == k_line_records(line));
                assert(records_model(out@) == k_records(raw@));
            }
            break;
        }
        proof {
            assert(suffix.subrange(j - start + 1, suffix.len() as int) =~= raw@.skip(j + 1));
            assert(k_records(suffix) == k_line_records(line) + k_records(raw@.skip(j + 1)));
            assert((records_model(old_out) + k_line_records(line)) + k_records(raw@.skip(j + 1))
                =~= records_model(old_out) + (k_line_records(line) + k_records(raw@.skip(j + 1))));
            assert(records_model(out@) + k_records(raw@.skip(j + 1)) == k_records(raw@));
        }
        start = j + 1;
    }
    out
}

/// Turn the two raw payloads of one poll cycle into its snapshot: all
/// dataset-M records first, then the filtered dataset-K records.
pub fn get_data(raw_m: &Vec<u8>, raw_k: &Vec<u8>) -> (r: Vec<Record>)
    ensures
        records_model(r@) == snapshot_records(raw_m@, raw_k@),
        records_model(r@) == m_records(raw_m@) + k_records(raw_k@),
{
    let mut r = parse_m(raw_m);
    let mut from_k = parse_k(raw_k);
    let ghost rm = r@;
    let ghost km = from_k@;
    r.append(&mut from_k);
    proof {
        assert(records_model(r@) =~= records_model(rm) + records_model(km));
    }
    r
}

} // verus!
