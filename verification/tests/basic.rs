use uniparc_xml_parser::model::{Uniparc, UniparcProperty, UniparcXRef};
use uniparc_xml_parser::properties::{categorize, Category, Interner};
use uniparc_xml_parser::text::{parse_u32, strip_newlines, u64_to_string};
use uniparc_xml_parser::writer::{sorted, Writable};

#[test]
fn it_works() {}

#[test]
fn u64_to_string_exact_values() {
    assert_eq!(u64_to_string(0), "0");
    assert_eq!(u64_to_string(7), "7");
    assert_eq!(u64_to_string(10), "10");
    assert_eq!(u64_to_string(40), "40");
    assert_eq!(u64_to_string(1234567890), "1234567890");
    assert_eq!(u64_to_string(u64::MAX), "18446744073709551615");
}

#[test]
fn parse_u32_accepts_digit_runs() {
    assert_eq!(parse_u32("0"), Some(0));
    assert_eq!(parse_u32("4"), Some(4));
    assert_eq!(parse_u32("0010"), Some(10));
    assert_eq!(parse_u32("4294967295"), Some(u32::MAX));
}

#[test]
fn parse_u32_rejects_everything_else() {
    assert_eq!(parse_u32(""), None);
    assert_eq!(parse_u32("12a"), None);
    assert_eq!(parse_u32("-1"), None);
    assert_eq!(parse_u32("+1"), None);
    assert_eq!(parse_u32(" 4"), None);
    assert_eq!(parse_u32("4294967296"), None);
    assert_eq!(parse_u32("99999999999999999999"), None);
}

#[test]
fn strip_newlines_joins_wrapped_text() {
    assert_eq!(strip_newlines("AB\nCD"), "ABCD");
    assert_eq!(strip_newlines("\nAB\nCD\n"), "ABCD");
    assert_eq!(strip_newlines("ABCD"), "ABCD");
    assert_eq!(strip_newlines(""), "");
    assert_eq!(strip_newlines("\n\n"), "");
}

#[test]
fn categorize_maps_the_eight_type_names() {
    assert_eq!(categorize("NCBI_GI"), Some(Category::NcbiGi));
    assert_eq!(categorize("NCBI_taxonomy_id"), Some(Category::NcbiTaxonomyId));
    assert_eq!(categorize("protein_name"), Some(Category::ProteinName));
    assert_eq!(categorize("gene_name"), Some(Category::GeneName));
    assert_eq!(categorize("chain"), Some(Category::PdbChain));
    assert_eq!(categorize("UniProtKB_accession"), Some(Category::UniprotKbAccession));
    assert_eq!(categorize("proteome_id"), Some(Category::ProteomeId));
    assert_eq!(categorize("component"), Some(Category::Component));
    assert_eq!(categorize("something_else"), None);
    assert_eq!(categorize(""), None);
}

#[test]
fn interning_is_idempotent_within_an_entry() {
    let mut interner = Interner::new();
    assert_eq!(interner.intern(String::from("alpha")), 1);
    assert_eq!(interner.intern(String::from("beta")), 2);
    assert_eq!(interner.intern(String::from("alpha")), 1);
    assert_eq!(interner.intern(String::from("beta")), 2);
    assert_eq!(interner.intern(String::from("gamma")), 3);
    assert_eq!(interner.values.len(), 3);

    // A fresh table, as the next entry gets, restarts the numbering.
    let mut next_entry = Interner::new();
    assert_eq!(next_entry.intern(String::from("gamma")), 1);
}

#[test]
fn sorted_pairs_increase_strictly() {
    let mut interner = Interner::new();
    interner.intern(String::from("zebra"));
    interner.intern(String::from("apple"));
    interner.intern(String::from("mango"));
    let pairs = sorted(&interner);
    assert_eq!(pairs.len(), 3);
    assert_eq!(pairs[0], (1, String::from("zebra")));
    assert_eq!(pairs[1], (2, String::from("apple")));
    assert_eq!(pairs[2], (3, String::from("mango")));
    for w in pairs.windows(2) {
        assert!(w[0].0 < w[1].0);
    }
}

#[test]
fn uniparc_row_serialization() {
    let u = Uniparc {
        uniparc_id: String::from("UPI1"),
        sequence: String::from("ABCD"),
        sequence_length: 4,
        sequence_checksum: String::from("Z9"),
    };
    assert_eq!(u.to_csv(), "UPI1\tABCD\t4\tZ9\n");
}

#[test]
fn xref_row_serialization() {
    let x = UniparcXRef {
        uniparc_id: String::from("UPI1"),
        xref_id: 2,
        db_type: String::from("PDB"),
        db_id: String::from("1ABC"),
        version_i: String::from("1"),
        active: String::from("Y"),
        version: String::from("3"),
        created: String::from("2001-01-01"),
        last: String::from("2002-02-02"),
    };
    assert_eq!(x.to_csv(), "UPI1\t2\tPDB\t1ABC\t1\tY\t3\t2001-01-01\t2002-02-02\n");
}

#[test]
fn junction_row_serialization() {
    let p = UniparcProperty {
        uniparc_id: String::from("UPI1"),
        xref_id: 1,
        property: String::from("gene_name"),
        surrogate: 5,
    };
    assert_eq!(p.to_csv(), "UPI1\t1\tgene_name\t5\n");
}
