//! The line classifier: decides for one annotation line whether it yields an
//! output row, and renders that row.
//!
//! A line is dropped when it is a comment, does not have exactly nine
//! tab-separated columns, or is not a CDS feature. A CDS line that lacks one
//! of the required attributes or whose coordinate columns do not parse is
//! skipped and reported through its skip reason rather than aborting the run.

use vstd::prelude::*;

use crate::attrs::{attr_get, attr_map, parse_attributes};
use crate::bytes::{bytes_eq, push_all, split_byte, split_on};
use crate::genes::GeneSet;
use crate::num::{dec_int, int_value, parse_i32, parses_as_i32};

verus! {

/// The bytes of the feature-type literal `CDS`.
pub open spec fn cds_bytes() -> Seq<u8> {
    seq![67u8, 68u8, 83u8]
}

/// The bytes of the attribute key `gene_id`.
pub open spec fn gene_id_bytes() -> Seq<u8> {
    seq![103u8, 101u8, 110u8, 101u8, 95u8, 105u8, 100u8]
}

/// The bytes of the attribute key `tag`.
pub open spec fn tag_bytes() -> Seq<u8> {
    seq![116u8, 97u8, 103u8]
}

/// The bytes of the attribute key `exon_number`.
pub open spec fn exon_number_bytes() -> Seq<u8> {
    seq![101u8, 120u8, 111u8, 110u8, 95u8, 110u8, 117u8, 109u8, 98u8, 101u8, 114u8]
}

/// The bytes of the infix `_exon_` of the synthetic exon tag.
pub open spec fn exon_infix_bytes() -> Seq<u8> {
    seq![95u8, 101u8, 120u8, 111u8, 110u8, 95u8]
}

fn cds_vec() -> (v: Vec<u8>)
    ensures
        v@ == cds_bytes(),
{
    let mut v: Vec<u8> = Vec::new();
    v.push(67);
    v.push(68);
    v.push(83);
    proof {
        assert(v@ =~= cds_bytes());
    }
    v
}

fn gene_id_vec() -> (v: Vec<u8>)
    ensures
        v@ == gene_id_bytes(),
{
    let mut v: Vec<u8> = Vec::new();
    v.push(103);
    v.push(101);
    v.push(110);
    v.push(101);
    v.push(95);
    v.push(105);
    v.push(100);
    proof {
        assert(v@ =~= gene_id_bytes());
    }
    v
}

fn tag_vec() -> (v: Vec<u8>)
    ensures
        v@ == tag_bytes(),
{
    let mut v: Vec<u8> = Vec::new();
    v.push(116);
    v.push(97);
    v.push(103);
    proof {
        assert(v@ =~= tag_bytes());
    }
    v
}

fn exon_number_vec() -> (v: Vec<u8>)
    ensures
        v@ == exon_number_bytes(),
{
    let mut v: Vec<u8> = Vec::new();
    v.push(101);
    v.push(120);
    v.push(111);
    v.push(110);
    v.push(95);
    v.push(110);
    v.push(117);
    v.push(109);
    v.push(98);
    v.push(101);
    v.push(114);
    proof {
        assert(v@ =~= exon_number_bytes());
    }
    v
}

fn exon_infix_vec() -> (v: Vec<u8>)
    ensures
        v@ == exon_infix_bytes(),
{
    let mut v: Vec<u8> = Vec::new();
    v.push(95);
    v.push(101);
    v.push(120);
    v.push(111);
    v.push(110);
    v.push(95);
    proof {
        assert(v@ =~= exon_infix_bytes());
    }
    v
}

/// Why a line produced no output row.
#[derive(Clone, Copy, Debug, PartialEq, Eq, Structural)]
pub enum SkipReason {
    /// The line begins with `#`.
    Comment,
    /// The line does not have exactly nine tab-separated columns.
    ColumnCount,
    /// The feature column is not `CDS`.
    NotCds,
    /// The attributes lack `gene_id`.
    MissingGeneId,
    /// The attributes lack `tag`.
    MissingTag,
    /// The attributes lack `exon_number`.
    MissingExonNumber,
    /// A gene filter is active and the gene is not in it.
    GeneFiltered,
    /// The start column is not an integer that fits the coordinate range.
    BadStart,
    /// The end column is not an integer that fits the coordinate range.
    BadEnd,
}

/// Whether a skip marks a malformed CDS line, the condition the run reports
/// in its summary, as opposed to a line that is merely out of scope.
pub open spec fn skip_is_malformed(r: SkipReason) -> bool {
    r == SkipReason::MissingGeneId || r == SkipReason::MissingTag || r
        == SkipReason::MissingExonNumber || r == SkipReason::BadStart || r == SkipReason::BadEnd
}

/// The mathematical outcome of one line: an output row or a skip reason.
pub enum LineVerdict {
    Row(Seq<u8>),
    Skip(SkipReason),
}

/// The outcome of one line as executable data.
pub enum LineOutcome {
    Row(Vec<u8>),
    Skip(SkipReason),
}

impl View for LineOutcome {
    type V = LineVerdict;

    open spec fn view(&self) -> LineVerdict {
        match self {
            LineOutcome::Row(v) => LineVerdict::Row(v@),
            LineOutcome::Skip(r) => LineVerdict::Skip(*r),
        }
    }
}

pub open spec fn is_comment(line: Seq<u8>) -> bool {
    line.len() > 0 && line[0] == 35
}

/// The tab-separated columns of a line.
pub open spec fn line_fields(line: Seq<u8>) -> Seq<Seq<u8>> {
    split_on(line, 9)
}

/// One output row: chromosome, start, end, derived length, strand, gene,
/// tag, and the synthetic exon tag `<gene>_exon_<exon_number>`, tab-separated.
/// The start and end columns are echoed as they appeared in the input; the
/// length is `end - start + 1` over their parsed values.
pub open spec fn render_row(
    chrom: Seq<u8>,
    start_s: Seq<u8>,
    end_s: Seq<u8>,
    strand: Seq<u8>,
    gene: Seq<u8>,
    tag: Seq<u8>,
    exon: Seq<u8>,
) -> Seq<u8> {
    chrom + seq![9u8] + start_s + seq![9u8] + end_s + seq![9u8] + dec_int(
        int_value(end_s) - int_value(start_s) + 1,
    ) + seq![9u8] + strand + seq![9u8] + gene + seq![9u8] + tag + seq![9u8] + gene
        + exon_infix_bytes() + exon
}

/// What one input line yields: the heart of the transformation. Comments,
/// lines without nine columns and non-CDS features are dropped; a CDS line
/// with the three required attributes, a gene that passes the filter, and
/// parseable coordinates yields exactly one rendered row.
pub open spec fn line_verdict(line: Seq<u8>, filter: Option<Set<Seq<u8>>>) -> LineVerdict {
    if is_comment(line) {
        LineVerdict::Skip(SkipReason::Comment)
    } else {
        let fields = line_fields(line);
        if fields.len() != 9 {
            LineVerdict::Skip(SkipReason::ColumnCount)
        } else if fields[2] != cds_bytes() {
            LineVerdict::Skip(SkipReason::NotCds)
        } else {
            let m = attr_map(fields[8]);
            if !m.contains_key(gene_id_bytes()) {
                LineVerdict::Skip(SkipReason::MissingGeneId)
            } else if !m.contains_key(tag_bytes()) {
                LineVerdict::Skip(SkipReason::MissingTag)
            } else if !m.contains_key(exon_number_bytes()) {
                LineVerdict::Skip(SkipReason::MissingExonNumber)
            } else if filter is Some && !filter.unwrap().contains(m[gene_id_bytes()]) {
                LineVerdict::Skip(SkipReason::GeneFiltered)
            } else if !parses_as_i32(fields[3]) {
                LineVerdict::Skip(SkipReason::BadStart)
            } else if !parses_as_i32(fields[4]) {
                LineVerdict::Skip(SkipReason::BadEnd)
            } else {
                LineVerdict::Row(
                    render_row(
                        fields[0],
                        fields[3],
                        fields[4],
                        fields[6],
                        m[gene_id_bytes()],
                        m[tag_bytes()],
                        m[exon_number_bytes()],
                    ),
                )
            }
        }
    }
}

/// The gene filter an optional gene set denotes: `None` means unrestricted.
pub open spec fn filter_view(filter: Option<&GeneSet>) -> Option<Set<Seq<u8>>> {
    match filter {
        Some(g) => Some(g@),
        None => None,
    }
}

/// Classifies one line and renders its output row, if any.
pub fn line_outcome(line: &Vec<u8>, filter: Option<&GeneSet>) -> (o: LineOutcome)
    ensures
        o@ == line_verdict(line@, filter_view(filter)),
{
    if line.len() > 0 && line[0] == 35 {
        return LineOutcome::Skip(SkipReason::Comment);
    }
    let fields = split_byte(line, 9);
    let ghost fs = line_fields(line@);
    if fields.len() != 9 {
        return LineOutcome::Skip(SkipReason::ColumnCount);
    }
    proof {
        assert(fields.deep_view()[0] =~= fields@[0]@);
        assert(fields.deep_view()[2] =~= fields@[2]@);
        assert(fields.deep_view()[3] =~= fields@[3]@);
        assert(fields.deep_view()[4] =~= fields@[4]@);
        assert(fields.deep_view()[6] =~= fields@[6]@);
        assert(fields.deep_view()[8] =~= fields@[8]@);
    }
    let cds = cds_vec();
    if !bytes_eq(&fields[2], &cds) {
        return LineOutcome::Skip(SkipReason::NotCds);
    }
    let pairs = parse_attributes(&fields[8]);
    let ghost m = attr_map(fs[8]);
    let gene_id_key = gene_id_vec();
    let gene = match attr_get(&pairs, &gene_id_key) {
        Some(g) => g,
        None => {
            return LineOutcome::Skip(SkipReason::MissingGeneId);
        },
    };
    let tag_key = tag_vec();
    let tag = match attr_get(&pairs, &tag_key) {
        Some(t) => t,
        None => {
            return LineOutcome::Skip(SkipReason::MissingTag);
        },
    };
    let exon_key = exon_number_vec();
    let exon = match attr_get(&pairs, &exon_key) {
        Some(e) => e,
        None => {
            return LineOutcome::Skip(SkipReason::MissingExonNumber);
        },
    };
    match filter {
        Some(gs) => {
            if !gs.contains(&gene) {
                return LineOutcome::Skip(SkipReason::GeneFiltered);
            }
        },
        None => {},
    }
    let start = match parse_i32(&fields[3]) {
        Some(v) => v,
        None => {
            return LineOutcome::Skip(SkipReason::BadStart);
        },
    };
    let end = match parse_i32(&fields[4]) {
        Some(v) => v,
        None => {
            return LineOutcome::Skip(SkipReason::BadEnd);
        },
    };
    let length: i64 = end as i64 - start as i64 + 1;
    let mut row: Vec<u8> = Vec::new();
    push_all(&mut row, &fields[0]);
    row.push(9);
    push_all(&mut row, &fields[3]);
    row.push(9);
    push_all(&mut row, &fields[4]);
    row.push(9);
    crate::num::push_dec_i64(&mut row, length);
    row.push(9);
    push_all(&mut row, &fields[6]);
    row.push(9);
    push_all(&mut row, &gene);
    row.push(9);
    push_all(&mut row, &tag);
    row.push(9);
    push_all(&mut row, &gene);
    let infix = exon_infix_vec();
    push_all(&mut row, &infix);
    push_all(&mut row, &exon);
    proof {
        assert(row@ =~= render_row(fs[0], fs[3], fs[4], fs[6], m[gene_id_bytes()], m[tag_bytes()],
            m[exon_number_bytes()]));
    }
    LineOutcome::Row(row)
}

} // verus!
