use gtf_cds::attrs::{attr_get, parse_attributes, parse_clause};
use gtf_cds::gtf::{line_outcome, LineOutcome, SkipReason};
use gtf_cds::num::parse_i32;

fn b(s: &str) -> Vec<u8> {
    s.as_bytes().to_vec()
}

fn get(pairs: &Vec<(Vec<u8>, Vec<u8>)>, key: &str) -> Option<String> {
    attr_get(pairs, &b(key)).map(|v| String::from_utf8(v).unwrap())
}

#[test]
fn attributes_are_parsed_in_order() {
    let raw = b("gene_id \"G1\"; tag \"basic\"; exon_number \"3\";");
    let pairs = parse_attributes(&raw);
    assert_eq!(pairs.len(), 3);
    assert_eq!(get(&pairs, "gene_id").as_deref(), Some("G1"));
    assert_eq!(get(&pairs, "tag").as_deref(), Some("basic"));
    assert_eq!(get(&pairs, "exon_number").as_deref(), Some("3"));
    assert_eq!(get(&pairs, "transcript_id"), None);
}

#[test]
fn duplicate_key_last_wins() {
    let raw = b("gene_id \"A\"; gene_id \"B\";");
    let pairs = parse_attributes(&raw);
    assert_eq!(get(&pairs, "gene_id").as_deref(), Some("B"));
}

#[test]
fn clause_without_quoted_value_is_dropped() {
    let raw = b("gene_id \"G1\"; basic_flag; tag \"basic\";");
    let pairs = parse_attributes(&raw);
    assert_eq!(pairs.len(), 2);
    assert_eq!(get(&pairs, "basic_flag"), None);
}

#[test]
fn single_space_clause_is_an_artifact() {
    assert_eq!(parse_clause(&b(" ")), None);
    assert_eq!(parse_clause(&b("")), None);
    let parsed = parse_clause(&b(" tag \"basic\"")).unwrap();
    assert_eq!(parsed.0, b("tag"));
    assert_eq!(parsed.1, b("basic"));
}

#[test]
fn value_is_the_piece_between_the_first_two_quotes() {
    let parsed = parse_clause(&b("tag \"ba\"sic\"")).unwrap();
    assert_eq!(parsed.1, b("ba"));
}

#[test]
fn keys_and_values_are_trimmed_of_clause_whitespace() {
    let raw = b("  gene_id   \"G1\" ;\ttag \"basic\"");
    let pairs = parse_attributes(&raw);
    assert_eq!(get(&pairs, "gene_id").as_deref(), Some("G1"));
    assert_eq!(get(&pairs, "tag").as_deref(), Some("basic"));
}

#[test]
fn integer_parsing_matches_the_coordinate_contract() {
    assert_eq!(parse_i32(&b("0")), Some(0));
    assert_eq!(parse_i32(&b("100")), Some(100));
    assert_eq!(parse_i32(&b("007")), Some(7));
    assert_eq!(parse_i32(&b("+42")), Some(42));
    assert_eq!(parse_i32(&b("-42")), Some(-42));
    assert_eq!(parse_i32(&b("2147483647")), Some(i32::MAX));
    assert_eq!(parse_i32(&b("-2147483648")), Some(i32::MIN));
    assert_eq!(parse_i32(&b("2147483648")), None);
    assert_eq!(parse_i32(&b("-2147483649")), None);
    assert_eq!(parse_i32(&b("99999999999999999999")), None);
    assert_eq!(parse_i32(&b("")), None);
    assert_eq!(parse_i32(&b("-")), None);
    assert_eq!(parse_i32(&b("+")), None);
    assert_eq!(parse_i32(&b("1 2")), None);
    assert_eq!(parse_i32(&b(" 1")), None);
    assert_eq!(parse_i32(&b("ten")), None);
}

fn skip_of(line: &str) -> SkipReason {
    match line_outcome(&b(line), None) {
        LineOutcome::Skip(r) => r,
        LineOutcome::Row(_) => panic!("expected a skip"),
    }
}

#[test]
fn each_skip_reason_is_reachable() {
    assert_eq!(skip_of("#comment"), SkipReason::Comment);
    assert_eq!(skip_of("only\tfour\tfields\there"), SkipReason::ColumnCount);
    assert_eq!(
        skip_of("chr1\tx\texon\t1\t2\t.\t+\t0\tgene_id \"A\"; tag \"t\"; exon_number \"1\";"),
        SkipReason::NotCds
    );
    assert_eq!(
        skip_of("chr1\tx\tCDS\t1\t2\t.\t+\t0\ttag \"t\"; exon_number \"1\";"),
        SkipReason::MissingGeneId
    );
    assert_eq!(
        skip_of("chr1\tx\tCDS\t1\t2\t.\t+\t0\tgene_id \"A\"; exon_number \"1\";"),
        SkipReason::MissingTag
    );
    assert_eq!(
        skip_of("chr1\tx\tCDS\t1\t2\t.\t+\t0\tgene_id \"A\"; tag \"t\";"),
        SkipReason::MissingExonNumber
    );
    assert_eq!(
        skip_of("chr1\tx\tCDS\tone\t2\t.\t+\t0\tgene_id \"A\"; tag \"t\"; exon_number \"1\";"),
        SkipReason::BadStart
    );
    assert_eq!(
        skip_of("chr1\tx\tCDS\t1\ttwo\t.\t+\t0\tgene_id \"A\"; tag \"t\"; exon_number \"1\";"),
        SkipReason::BadEnd
    );
    let filtered = gtf_cds::genes::GeneSet::from_bytes(&b("OTHER\n"));
    match line_outcome(
        &b("chr1\tx\tCDS\t1\t2\t.\t+\t0\tgene_id \"A\"; tag \"t\"; exon_number \"1\";"),
        Some(&filtered),
    ) {
        LineOutcome::Skip(r) => assert_eq!(r, SkipReason::GeneFiltered),
        LineOutcome::Row(_) => panic!("expected a skip"),
    }
}

#[test]
fn cds_line_renders_one_row() {
    let line = b("chr7\tHAVANA\tCDS\t30\t41\t.\t-\t1\tgene_id \"GX\"; tag \"basic\"; exon_number \"7\";");
    match line_outcome(&line, None) {
        LineOutcome::Row(row) => {
            assert_eq!(row, b("chr7\t30\t41\t12\t-\tGX\tbasic\tGX_exon_7"));
        },
        LineOutcome::Skip(_) => panic!("expected a row"),
    }
}
