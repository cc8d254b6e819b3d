use std::io::Write;

use gtf_cds::genes::GeneSet;
use gtf_cds::pipeline::{is_gz_name, process_gzip_input, process_input, process_named_input};

fn b(s: &str) -> Vec<u8> {
    s.as_bytes().to_vec()
}

const HEADER: &str = "chr\tstart\tend\tlength\tstrand\tgene\ttag\texon_number\n";

const EXAMPLE: &str =
    "chr1\tENSEMBL\tCDS\t100\t200\t.\t+\t0\tgene_id \"G1\"; tag \"basic\"; exon_number \"3\";\n";

#[test]
fn example_line_with_header() {
    let input = b(EXAMPLE);
    let out = process_input(&input, None, true);
    let expected = format!("{}chr1\t100\t200\t101\t+\tG1\tbasic\tG1_exon_3\n", HEADER);
    assert_eq!(out.bytes, b(&expected));
    assert_eq!(out.rows, 1);
    assert_eq!(out.malformed, 0);
}

#[test]
fn example_line_filtered_out() {
    let input = b(EXAMPLE);
    let filter = GeneSet::from_bytes(&b("G2\n"));
    let out = process_input(&input, Some(&filter), false);
    assert_eq!(out.bytes, b(""));
    assert_eq!(out.rows, 0);
    assert_eq!(out.malformed, 0);
}

#[test]
fn example_line_passing_filter() {
    let input = b(EXAMPLE);
    let filter = GeneSet::from_bytes(&b("G1\nG2\n"));
    let with_filter = process_input(&input, Some(&filter), false);
    let without = process_input(&input, None, false);
    assert_eq!(with_filter.bytes, without.bytes);
    assert_eq!(with_filter.rows, 1);
}

#[test]
fn eight_fields_yield_nothing() {
    let input = b("chr1\tENSEMBL\tCDS\t100\t200\t.\t+\t0\n");
    let out = process_input(&input, None, false);
    assert_eq!(out.bytes, b(""));
    assert_eq!(out.rows, 0);
}

#[test]
fn comment_line_is_inert() {
    let plain = b(EXAMPLE);
    let commented = b(&format!("#description: human annotation\n{}", EXAMPLE));
    let out_plain = process_input(&plain, None, true);
    let out_commented = process_input(&commented, None, true);
    assert_eq!(out_plain.bytes, out_commented.bytes);
    assert_eq!(out_commented.rows, 1);
    assert_eq!(out_commented.malformed, 0);
}

#[test]
fn comment_alone_yields_nothing() {
    let input = b("#description: human annotation\n");
    let out = process_input(&input, None, false);
    assert_eq!(out.bytes, b(""));
    assert_eq!(out.rows, 0);
}

#[test]
fn non_cds_features_yield_nothing() {
    let input = b("chr1\tENSEMBL\tgene\t1\t9\t.\t+\t0\tgene_id \"G1\"; tag \"basic\"; exon_number \"1\";\nchr1\tENSEMBL\texon\t1\t9\t.\t+\t0\tgene_id \"G1\"; tag \"basic\"; exon_number \"1\";\nchr1\tENSEMBL\tfive_prime_utr\t1\t9\t.\t+\t0\tgene_id \"G1\"; tag \"basic\"; exon_number \"1\";\n");
    let out = process_input(&input, None, false);
    assert_eq!(out.bytes, b(""));
    assert_eq!(out.rows, 0);
    assert_eq!(out.malformed, 0);
}

#[test]
fn order_is_preserved() {
    let input = b("chr1\tx\tCDS\t1\t2\t.\t+\t0\tgene_id \"A\"; tag \"t\"; exon_number \"1\";\nchr2\tx\tgene\t1\t2\t.\t+\t0\tgene_id \"Z\"; tag \"t\"; exon_number \"9\";\nchr3\tx\tCDS\t5\t5\t.\t-\t0\tgene_id \"B\"; tag \"u\"; exon_number \"2\";\nchr4\tx\tCDS\t10\t30\t.\t+\t0\tgene_id \"C\"; tag \"v\"; exon_number \"3\";\n");
    let out = process_input(&input, None, false);
    let expected = "chr1\t1\t2\t2\t+\tA\tt\tA_exon_1\nchr3\t5\t5\t1\t-\tB\tu\tB_exon_2\nchr4\t10\t30\t21\t+\tC\tv\tC_exon_3\n";
    assert_eq!(out.bytes, b(expected));
    assert_eq!(out.rows, 3);
}

#[test]
fn filter_gives_intersection() {
    let input = b("chr1\tx\tCDS\t1\t2\t.\t+\t0\tgene_id \"A\"; tag \"t\"; exon_number \"1\";\nchr2\tx\tCDS\t3\t4\t.\t+\t0\tgene_id \"B\"; tag \"t\"; exon_number \"1\";\nchr3\tx\tCDS\t5\t6\t.\t+\t0\tgene_id \"C\"; tag \"t\"; exon_number \"1\";\n");
    let filter = GeneSet::from_bytes(&b("B\nD\n"));
    let out = process_input(&input, Some(&filter), false);
    assert_eq!(out.bytes, b("chr2\t3\t4\t2\t+\tB\tt\tB_exon_1\n"));
    assert_eq!(out.rows, 1);
}

#[test]
fn empty_filter_file_blocks_everything() {
    let input = b(EXAMPLE);
    let filter = GeneSet::from_bytes(&b(""));
    let out = process_input(&input, Some(&filter), false);
    assert_eq!(out.bytes, b(""));
    assert_eq!(out.rows, 0);
}

#[test]
fn gene_set_members_are_verbatim() {
    let filter = GeneSet::from_bytes(&b("G1 \n"));
    assert!(filter.contains(&b("G1 ")));
    assert!(!filter.contains(&b("G1")));
}

#[test]
fn missing_tag_is_counted_not_fatal() {
    let input = b("chr1\tx\tCDS\t1\t2\t.\t+\t0\tgene_id \"A\"; exon_number \"1\";\nchr2\tx\tCDS\t3\t4\t.\t+\t0\tgene_id \"B\"; tag \"t\"; exon_number \"1\";\n");
    let out = process_input(&input, None, false);
    assert_eq!(out.bytes, b("chr2\t3\t4\t2\t+\tB\tt\tB_exon_1\n"));
    assert_eq!(out.rows, 1);
    assert_eq!(out.malformed, 1);
}

#[test]
fn bad_coordinates_are_counted_not_fatal() {
    let input = b("chr1\tx\tCDS\tten\t20\t.\t+\t0\tgene_id \"A\"; tag \"t\"; exon_number \"1\";\nchr1\tx\tCDS\t10\t99999999999\t.\t+\t0\tgene_id \"A\"; tag \"t\"; exon_number \"1\";\n");
    let out = process_input(&input, None, false);
    assert_eq!(out.bytes, b(""));
    assert_eq!(out.rows, 0);
    assert_eq!(out.malformed, 2);
}

#[test]
fn negative_coordinates_render_signed_length() {
    let input = b("chr1\tx\tCDS\t-5\t5\t.\t+\t0\tgene_id \"A\"; tag \"t\"; exon_number \"1\";\n");
    let out = process_input(&input, None, false);
    assert_eq!(out.bytes, b("chr1\t-5\t5\t11\t+\tA\tt\tA_exon_1\n"));
}

#[test]
fn reversed_coordinates_render_negative_length() {
    let input = b("chr1\tx\tCDS\t10\t5\t.\t+\t0\tgene_id \"A\"; tag \"t\"; exon_number \"1\";\n");
    let out = process_input(&input, None, false);
    assert_eq!(out.bytes, b("chr1\t10\t5\t-4\t+\tA\tt\tA_exon_1\n"));
}

#[test]
fn empty_input_still_prints_header() {
    let out = process_input(&b(""), None, true);
    assert_eq!(out.bytes, b(HEADER));
    assert_eq!(out.rows, 0);
}

#[test]
fn crlf_lines_parse_like_lf_lines() {
    let lf = b(EXAMPLE);
    let crlf = b(&EXAMPLE.replace('\n', "\r\n"));
    let out_lf = process_input(&lf, None, false);
    let out_crlf = process_input(&crlf, None, false);
    assert_eq!(out_lf.bytes, out_crlf.bytes);
    assert_eq!(out_crlf.rows, 1);
}

fn gzip(data: &[u8]) -> Vec<u8> {
    let mut enc = flate2::write::GzEncoder::new(Vec::new(), flate2::Compression::default());
    enc.write_all(data).unwrap();
    enc.finish().unwrap()
}

#[test]
fn gzip_and_plain_agree_byte_for_byte() {
    let input = b("#header comment\nchr1\tENSEMBL\tCDS\t100\t200\t.\t+\t0\tgene_id \"G1\"; tag \"basic\"; exon_number \"3\";\nchrX\tENSEMBL\tCDS\t7\t7\t.\t-\t2\tgene_id \"G2\"; tag \"alt\"; exon_number \"12\";\n");
    let compressed = gzip(&input);
    assert_ne!(compressed, input);
    let from_plain = process_input(&input, None, true);
    let from_gz = process_gzip_input(&compressed, None, true).expect("well-formed gzip stream");
    assert_eq!(from_gz.bytes, from_plain.bytes);
    assert_eq!(from_gz.rows, from_plain.rows);
    assert_eq!(from_gz.malformed, from_plain.malformed);
}

#[test]
fn corrupt_gzip_is_reported() {
    let garbage = b("this is not a gzip stream");
    assert!(process_gzip_input(&garbage, None, true).is_none());
}

#[test]
fn named_input_dispatches_on_suffix() {
    let input = b(EXAMPLE);
    let compressed = gzip(&input);
    let via_gz = process_named_input(&b("annot.gtf.gz"), &compressed, None, true).unwrap();
    let via_plain = process_named_input(&b("annot.gtf"), &input, None, true).unwrap();
    assert_eq!(via_gz.bytes, via_plain.bytes);
}

#[test]
fn gz_suffix_detection() {
    assert!(is_gz_name(&b("a.gz")));
    assert!(is_gz_name(&b(".gz")));
    assert!(!is_gz_name(&b("gz")));
    assert!(!is_gz_name(&b("a.gzip")));
    assert!(!is_gz_name(&b("agz")));
}
