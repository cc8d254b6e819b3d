//! The single forward pass: classify every line in order, emit the rows that
//! pass all filters, and count what was emitted and what was malformed.

use vstd::prelude::*;

use crate::bytes::{lines_of, push_all, split_lines};
use crate::genes::GeneSet;
use crate::gtf::{filter_view, line_outcome, line_verdict, skip_is_malformed, LineOutcome,
    LineVerdict, SkipReason};
use crate::gz::{gunzip, gunzip_of};

verus! {

/// The bytes of the fixed header row, newline included:
/// `chr`, `start`, `end`, `length`, `strand`, `gene`, `tag`, `exon_number`.
pub open spec fn header_bytes() -> Seq<u8> {
    seq![
        99u8, 104u8, 114u8, 9u8, 115u8, 116u8, 97u8, 114u8, 116u8, 9u8, 101u8, 110u8, 100u8, 9u8,
        108u8, 101u8, 110u8, 103u8, 116u8, 104u8, 9u8, 115u8, 116u8, 114u8, 97u8, 110u8, 100u8,
        9u8, 103u8, 101u8, 110u8, 101u8, 9u8, 116u8, 97u8, 103u8, 9u8, 101u8, 120u8, 111u8, 110u8,
        95u8, 110u8, 117u8, 109u8, 98u8, 101u8, 114u8, 10u8,
    ]
}

fn header_vec() -> (v: Vec<u8>)
    ensures
        v@ == header_bytes(),
{
    let mut v: Vec<u8> = Vec::new();
    v.push(99);
    v.push(104);
    v.push(114);
    v.push(9);
    v.push(115);
    v.push(116);
    v.push(97);
    v.push(114);
    v.push(116);
    v.push(9);
    v.push(101);
    v.push(110);
    v.push(100);
    v.push(9);
    v.push(108);
    v.push(101);
    v.push(110);
    v.push(103);
    v.push(116);
    v.push(104);
    v.push(9);
    v.push(115);
    v.push(116);
    v.push(114);
    v.push(97);
    v.push(110);
    v.push(100);
    v.push(9);
    v.push(103);
    v.push(101);
    v.push(110);
    v.push(101);
    v.push(9);
    v.push(116);
    v.push(97);
    v.push(103);
    v.push(9);
    v.push(101);
    v.push(120);
    v.push(111);
    v.push(110);
    v.push(95);
    v.push(110);
    v.push(117);
    v.push(109);
    v.push(98);
    v.push(101);
    v.push(114);
    v.push(10);
    proof {
        assert(v@ =~= header_bytes());
    }
    v
}

/// The rows the pass emits, in input order: one rendered row per line whose
/// verdict is a row.
pub open spec fn rows_spec(lines: Seq<Seq<u8>>, filter: Option<Set<Seq<u8>>>) -> Seq<Seq<u8>>
    decreases lines.len(),
{
    if lines.len() == 0 {
        Seq::<Seq<u8>>::empty()
    } else {
        let r = rows_spec(lines.drop_last(), filter);
        match line_verdict(lines.last(), filter) {
            LineVerdict::Row(x) => r.push(x),
            LineVerdict::Skip(_) => r,
        }
    }
}

/// How many lines were skipped as malformed CDS lines.
pub open spec fn malformed_count(lines: Seq<Seq<u8>>, filter: Option<Set<Seq<u8>>>) -> nat
    decreases lines.len(),
{
    if lines.len() == 0 {
        0
    } else {
        malformed_count(lines.drop_last(), filter) + match line_verdict(lines.last(), filter) {
            LineVerdict::Row(_) => 0nat,
            LineVerdict::Skip(r) => if skip_is_malformed(r) {
                1nat
            } else {
                0nat
            },
        }
    }
}

/// Rows joined into output text: each row followed by a newline.
pub open spec fn render_rows(rows: Seq<Seq<u8>>) -> Seq<u8>
    decreases rows.len(),
{
    if rows.len() == 0 {
        Seq::<u8>::empty()
    } else {
        render_rows(rows.drop_last()) + rows.last() + seq![10u8]
    }
}

/// The full output text: the fixed header when enabled, then the emitted
/// rows in input order.
pub open spec fn output_spec(
    lines: Seq<Seq<u8>>,
    filter: Option<Set<Seq<u8>>>,
    header: bool,
) -> Seq<u8> {
    (if header {
        header_bytes()
    } else {
        Seq::<u8>::empty()
    }) + render_rows(rows_spec(lines, filter))
}

/// The result of one pass: the output text, the number of emitted rows, and
/// the number of lines skipped as malformed.
pub struct RunOutput {
    pub bytes: Vec<u8>,
    pub rows: usize,
    pub malformed: usize,
}

/// Whether a pass result is exactly what the given lines demand.
pub open spec fn run_matches(
    o: RunOutput,
    lines: Seq<Seq<u8>>,
    filter: Option<Set<Seq<u8>>>,
    header: bool,
) -> bool {
    &&& o.bytes@ == output_spec(lines, filter, header)
    &&& o.rows as nat == rows_spec(lines, filter).len()
    &&& o.malformed as nat == malformed_count(lines, filter)
}

fn reason_is_malformed(r: SkipReason) -> (b: bool)
    ensures
        b == skip_is_malformed(r),
{
    r == SkipReason::MissingGeneId || r == SkipReason::MissingTag || r
        == SkipReason::MissingExonNumber || r == SkipReason::BadStart || r == SkipReason::BadEnd
}

/// Processes a sequence of lines in order.
pub fn process_lines(lines: &Vec<Vec<u8>>, filter: Option<&GeneSet>, header: bool) -> (out:
    RunOutput)
    ensures
        run_matches(out, lines.deep_view(), filter_view(filter), header),
{
    let ghost lv = lines.deep_view();
    let ghost fv = filter_view(filter);
    let mut bytes: Vec<u8> = if header {
        header_vec()
    } else {
        Vec::new()
    };
    let mut rows: usize = 0;
    let mut malformed: usize = 0;
    let mut i: usize = 0;
    proof {
        assert(lv.take(0) =~= Seq::<Seq<u8>>::empty());
        assert(bytes@ =~= (if header {
            header_bytes()
        } else {
            Seq::<u8>::empty()
        }) + render_rows(rows_spec(lv.take(0), fv)));
    }
    while i < lines.len()
        invariant
            i <= lines.len(),
            lines.deep_view() == lv,
            fv == filter_view(filter),
            bytes@ == (if header {
                header_bytes()
            } else {
                Seq::<u8>::empty()
            }) + render_rows(rows_spec(lv.take(i as int), fv)),
            rows as nat == rows_spec(lv.take(i as int), fv).len(),
            malformed as nat == malformed_count(lv.take(i as int), fv),
            rows <= i,
            malformed <= i,
        decreases lines.len() - i,
    {
        let ghost old_bytes = bytes@;
        proof {
            assert(lv[i as int] =~= lines@[i as int]@);
        }
        match line_outcome(&lines[i], filter) {
            LineOutcome::Row(r) => {
                push_all(&mut bytes, &r);
                bytes.push(10);
                rows = rows + 1;
                proof {
                    assert(bytes@ =~= old_bytes + r@ + seq![10u8]);
                }
            },
            LineOutcome::Skip(reason) => {
                if reason_is_malformed(reason) {
                    malformed = malformed + 1;
                }
            },
        }
        i = i + 1;
        proof {
            let t = lv.take(i as int);
            assert(t.drop_last() =~= lv.take(i as int - 1));
            assert(t.last() == lv[i as int - 1]);
            let hdr = if header {
                header_bytes()
            } else {
                Seq::<u8>::empty()
            };
            let prev = rows_spec(lv.take(i as int - 1), fv);
            match line_verdict(lv[i as int - 1], fv) {
                LineVerdict::Row(x) => {
                    assert(rows_spec(t, fv) == prev.push(x));
                    assert(prev.push(x).drop_last() =~= prev);
                    assert(render_rows(prev.push(x)) == render_rows(prev) + x + seq![10u8]);
                    assert(bytes@ =~= hdr + render_rows(rows_spec(t, fv)));
                },
                LineVerdict::Skip(_) => {
                    assert(rows_spec(t, fv) == prev);
                },
            }
        }
    }
    proof {
        assert(lv.take(lv.len() as int) =~= lv);
    }
    RunOutput { bytes, rows, malformed }
}

/// Processes the bytes of a plain-text annotation stream.
pub fn process_input(input: &Vec<u8>, filter: Option<&GeneSet>, header: bool) -> (out: RunOutput)
    ensures
        run_matches(out, lines_of(input@), filter_view(filter), header),
{
    let lines = split_lines(input);
    process_lines(&lines, filter, header)
}

/// Processes the bytes of a gzip-compressed annotation stream; `None` when
/// the stream does not decode.
pub fn process_gzip_input(data: &Vec<u8>, filter: Option<&GeneSet>, header: bool) -> (out: Option<
    RunOutput,
>)
    ensures
        match out {
            Some(o) => gunzip_of(data@) is Some && run_matches(
                o,
                lines_of(gunzip_of(data@).unwrap()),
                filter_view(filter),
                header,
            ),
            None => gunzip_of(data@) is None,
        },
{
    match gunzip(data) {
        Some(text) => Some(process_input(&text, filter, header)),
        None => None,
    }
}

/// The suffix `.gz` that marks a compressed input, checked by name.
pub open spec fn gz_suffix() -> Seq<u8> {
    seq![46u8, 103u8, 122u8]
}

pub open spec fn has_gz_suffix(name: Seq<u8>) -> bool {
    name.len() >= 3 && name.subrange(name.len() - 3, name.len() as int) == gz_suffix()
}

/// Whether a file name marks its content as gzip-compressed.
pub fn is_gz_name(name: &Vec<u8>) -> (r: bool)
    ensures
        r == has_gz_suffix(name@),
{
    if name.len() < 3 {
        return false;
    }
    let n = name.len();
    let r = name[n - 3] == 46 && name[n - 2] == 103 && name[n - 1] == 122;
    proof {
        if r {
            assert(name@.subrange(name@.len() - 3, name@.len() as int) =~= gz_suffix());
        } else {
            assert(name@.subrange(name@.len() - 3, name@.len() as int) != gz_suffix());
        }
    }
    r
}

/// Processes an annotation stream under the name that tells plain text from
/// gzip: a name ending in `.gz` is decompressed first. `None` only when a
/// gzip-named stream does not decode.
pub fn process_named_input(
    name: &Vec<u8>,
    data: &Vec<u8>,
    filter: Option<&GeneSet>,
    header: bool,
) -> (out: Option<RunOutput>)
    ensures
        has_gz_suffix(name@) ==> match out {
            Some(o) => gunzip_of(data@) is Some && run_matches(
                o,
                lines_of(gunzip_of(data@).unwrap()),
                filter_view(filter),
                header,
            ),
            None => gunzip_of(data@) is None,
        },
        !has_gz_suffix(name@) ==> out is Some && run_matches(
            out.unwrap(),
            lines_of(data@),
            filter_view(filter),
            header,
        ),
{
    if is_gz_name(name) {
        process_gzip_input(data, filter, header)
    } else {
        Some(process_input(data, filter, header))
    }
}

} // verus!
