//! The laws of the transformation, stated and proved once over the
//! specification the executable functions are verified against.

use vstd::prelude::*;

use crate::attrs::attr_map;
use crate::bytes::lines_of;
use crate::gtf::{cds_bytes, exon_infix_bytes, exon_number_bytes, gene_id_bytes, is_comment,
    line_fields, line_verdict, tag_bytes, LineVerdict, SkipReason};
use crate::gz::gunzip_of;
use crate::num::{dec_int, int_value, parses_as_i32};
use crate::pipeline::{malformed_count, output_spec, render_rows, rows_spec, run_matches,
    RunOutput};

verus! {

/// Whether a line is a well-formed CDS record: not a comment, exactly nine
/// tab-separated columns, feature column `CDS`, quoted `gene_id`, `tag` and
/// `exon_number` attributes, and coordinate columns that parse.
pub open spec fn well_formed_cds(line: Seq<u8>) -> bool {
    &&& !is_comment(line)
    &&& line_fields(line).len() == 9
    &&& line_fields(line)[2] == cds_bytes()
    &&& attr_map(line_fields(line)[8]).contains_key(gene_id_bytes())
    &&& attr_map(line_fields(line)[8]).contains_key(tag_bytes())
    &&& attr_map(line_fields(line)[8]).contains_key(exon_number_bytes())
    &&& parses_as_i32(line_fields(line)[3])
    &&& parses_as_i32(line_fields(line)[4])
}

/// The gene identifier of a line with a `gene_id` attribute.
pub open spec fn cds_gene(line: Seq<u8>) -> Seq<u8> {
    attr_map(line_fields(line)[8])[gene_id_bytes()]
}

/// Law: a well-formed CDS line that passes the gene filter yields exactly
/// one row; the length column of that row renders `end - start + 1` over the
/// parsed coordinates, and its last column is the gene identifier, `_exon_`,
/// and the exon number, concatenated.
pub proof fn lemma_cds_row_shape(line: Seq<u8>, filter: Option<Set<Seq<u8>>>)
    requires
        well_formed_cds(line),
        filter is Some ==> filter.unwrap().contains(cds_gene(line)),
    ensures
        ({
            let fields = line_fields(line);
            let m = attr_map(fields[8]);
            line_verdict(line, filter) == LineVerdict::Row(
                fields[0] + seq![9u8] + fields[3] + seq![9u8] + fields[4] + seq![9u8] + dec_int(
                    int_value(fields[4]) - int_value(fields[3]) + 1,
                ) + seq![9u8] + fields[6] + seq![9u8] + m[gene_id_bytes()] + seq![9u8]
                    + m[tag_bytes()] + seq![9u8] + m[gene_id_bytes()] + exon_infix_bytes()
                    + m[exon_number_bytes()],
            )
        }),
{
}

/// Law: a line whose feature column is not `CDS`, or that does not have
/// exactly nine columns, never yields a row, whatever its attributes hold.
pub proof fn lemma_non_cds_no_row(line: Seq<u8>, filter: Option<Set<Seq<u8>>>)
    requires
        line_fields(line).len() != 9 || line_fields(line)[2] != cds_bytes(),
    ensures
        !(line_verdict(line, filter) is Row),
{
}

/// Law: a comment line yields nothing and does not affect the rest of the
/// run: the rows, the output text and the malformed count over any
/// surrounding lines are those of the same run without the comment line.
pub proof fn lemma_comment_inert(
    pre: Seq<Seq<u8>>,
    c: Seq<u8>,
    post: Seq<Seq<u8>>,
    filter: Option<Set<Seq<u8>>>,
    header: bool,
)
    requires
        is_comment(c),
    ensures
        rows_spec(pre + seq![c] + post, filter) == rows_spec(pre + post, filter),
        malformed_count(pre + seq![c] + post, filter) == malformed_count(pre + post, filter),
        output_spec(pre + seq![c] + post, filter, header) == output_spec(pre + post, filter, header),
    decreases post.len(),
{
    if post.len() == 0 {
        assert(pre + seq![c] + post =~= pre.push(c));
        assert(pre.push(c).drop_last() =~= pre);
        assert(pre + post =~= pre);
        assert(line_verdict(c, filter) == LineVerdict::Skip(SkipReason::Comment));
    } else {
        lemma_comment_inert(pre, c, post.drop_last(), filter, header);
        assert((pre + seq![c] + post).drop_last() =~= pre + seq![c] + post.drop_last());
        assert((pre + post).drop_last() =~= pre + post.drop_last());
        assert((pre + seq![c] + post).last() == post.last());
        assert((pre + post).last() == post.last());
    }
}

/// Whether a line reaches the gene filter: a non-comment CDS line with nine
/// columns and all three required attributes.
pub open spec fn reaches_gene_filter(line: Seq<u8>) -> bool {
    &&& !is_comment(line)
    &&& line_fields(line).len() == 9
    &&& line_fields(line)[2] == cds_bytes()
    &&& attr_map(line_fields(line)[8]).contains_key(gene_id_bytes())
    &&& attr_map(line_fields(line)[8]).contains_key(tag_bytes())
    &&& attr_map(line_fields(line)[8]).contains_key(exon_number_bytes())
}

/// Law: filtering restricts and never rewrites. With a filter set, a line's
/// verdict is the unfiltered verdict whenever its gene is in the set, and a
/// skip when the line reaches the filter with a gene outside it; a row comes
/// out if and only if it would come out unfiltered and its gene is in the
/// set. The output gene set is therefore the intersection of the input's CDS
/// genes with the filter set.
pub proof fn lemma_gene_filter(line: Seq<u8>, s: Set<Seq<u8>>)
    ensures
        line_verdict(line, Some(s)) == (if reaches_gene_filter(line) && !s.contains(
            cds_gene(line),
        ) {
            LineVerdict::Skip(SkipReason::GeneFiltered)
        } else {
            line_verdict(line, None)
        }),
        (line_verdict(line, Some(s)) is Row) <==> ((line_verdict(line, None) is Row) && s.contains(
            cds_gene(line),
        )),
{
}

/// The genes of the rows a pass emits.
pub open spec fn emitted_genes(lines: Seq<Seq<u8>>, filter: Option<Set<Seq<u8>>>) -> Set<Seq<u8>>
    decreases lines.len(),
{
    if lines.len() == 0 {
        Set::<Seq<u8>>::empty()
    } else {
        let r = emitted_genes(lines.drop_last(), filter);
        if line_verdict(lines.last(), filter) is Row {
            r.insert(cds_gene(lines.last()))
        } else {
            r
        }
    }
}

/// Law: with a gene filter, the output gene set is exactly the intersection
/// of the gene set the unfiltered pass would emit with the filter set.
pub proof fn lemma_output_gene_set(lines: Seq<Seq<u8>>, s: Set<Seq<u8>>)
    ensures
        emitted_genes(lines, Some(s)) == emitted_genes(lines, None).intersect(s),
    decreases lines.len(),
{
    if lines.len() == 0 {
        assert(emitted_genes(lines, Some(s)) =~= emitted_genes(lines, None).intersect(s));
    } else {
        lemma_output_gene_set(lines.drop_last(), s);
        lemma_gene_filter(lines.last(), s);
        assert(emitted_genes(lines, Some(s)) =~= emitted_genes(lines, None).intersect(s));
    }
}

/// Law: the pass over a concatenation of lines is the concatenation of the
/// passes: output rows keep the input order of the lines they come from.
pub proof fn lemma_rows_order(a: Seq<Seq<u8>>, b: Seq<Seq<u8>>, filter: Option<Set<Seq<u8>>>)
    ensures
        rows_spec(a + b, filter) == rows_spec(a, filter) + rows_spec(b, filter),
    decreases b.len(),
{
    if b.len() == 0 {
        assert(a + b =~= a);
        assert(rows_spec(a, filter) + rows_spec(b, filter) =~= rows_spec(a, filter));
    } else {
        lemma_rows_order(a, b.drop_last(), filter);
        assert((a + b).drop_last() =~= a + b.drop_last());
        assert((a + b).last() == b.last());
        match line_verdict(b.last(), filter) {
            LineVerdict::Row(x) => {
                assert(rows_spec(a, filter) + rows_spec(b, filter) =~= (rows_spec(a, filter)
                    + rows_spec(b.drop_last(), filter)).push(x));
            },
            LineVerdict::Skip(_) => {},
        }
    }
}

/// Law: with the header off, the output text over a concatenation of inputs
/// is the concatenation of their output texts: the pass reads forward once
/// and emits rows in input order.
pub proof fn lemma_output_order(a: Seq<Seq<u8>>, b: Seq<Seq<u8>>, filter: Option<Set<Seq<u8>>>)
    ensures
        output_spec(a + b, filter, false) == output_spec(a, filter, false) + output_spec(
            b,
            filter,
            false,
        ),
{
    lemma_rows_order(a, b, filter);
    lemma_render_rows_append(rows_spec(a, filter), rows_spec(b, filter));
    assert(output_spec(a + b, filter, false) =~= output_spec(a, filter, false) + output_spec(
        b,
        filter,
        false,
    ));
}

/// Law: format transparency. A gzip-compressed stream and a plain stream
/// with the same decoded content produce byte-identical output and identical
/// counts.
pub proof fn lemma_format_transparency(
    gz_data: Seq<u8>,
    text: Seq<u8>,
    filter: Option<Set<Seq<u8>>>,
    header: bool,
    from_gz: RunOutput,
    from_plain: RunOutput,
)
    requires
        gunzip_of(gz_data) == Some(text),
        run_matches(from_gz, lines_of(gunzip_of(gz_data).unwrap()), filter, header),
        run_matches(from_plain, lines_of(text), filter, header),
    ensures
        from_gz.bytes@ == from_plain.bytes@,
        from_gz.rows == from_plain.rows,
        from_gz.malformed == from_plain.malformed,
{
}

/// Rendering rows into output text distributes over concatenation; with the
/// order law above, the headerless output text of concatenated inputs is the
/// concatenation of their output texts.
pub proof fn lemma_render_rows_append(a: Seq<Seq<u8>>, b: Seq<Seq<u8>>)
    ensures
        render_rows(a + b) == render_rows(a) + render_rows(b),
    decreases b.len(),
{
    if b.len() == 0 {
        assert(a + b =~= a);
        assert(render_rows(a) + render_rows(b) =~= render_rows(a));
    } else {
        lemma_render_rows_append(a, b.drop_last());
        assert((a + b).drop_last() =~= a + b.drop_last());
        assert((a + b).last() == b.last());
        assert(render_rows(a) + render_rows(b) =~= render_rows(a) + render_rows(b.drop_last())
            + b.last() + seq![10u8]);
    }
}

} // verus!

