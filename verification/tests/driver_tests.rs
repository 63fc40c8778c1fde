use uniparc_xml_parser::driver::{finish, has_room, process_event, MarkupEvent, ParserState};
use uniparc_xml_parser::model::{Attr, FatalError};
use uniparc_xml_parser::writer::OutputBuffers;

fn attr(key: &str, value: &str) -> Attr {
    Attr { key: String::from(key), value: String::from(value) }
}

fn start(name: &str, attrs: Vec<Attr>) -> MarkupEvent {
    MarkupEvent::Start(String::from(name), attrs)
}

fn empty(name: &str, attrs: Vec<Attr>) -> MarkupEvent {
    MarkupEvent::Empty(String::from(name), attrs)
}

fn text(t: &str) -> MarkupEvent {
    MarkupEvent::Text(String::from(t))
}

fn end(name: &str) -> MarkupEvent {
    MarkupEvent::End(String::from(name))
}

fn feed(
    state: &mut ParserState,
    outputs: &mut OutputBuffers,
    events: Vec<MarkupEvent>,
) -> Result<(), FatalError> {
    for event in events {
        assert!(has_room(state));
        process_event(state, outputs, event)?;
    }
    Ok(())
}

/// The end-to-end scenario: one entry with a wrapped sequence, one active
/// PDB cross-reference carrying a chain property, and one signature match
/// annotated once and located twice.
#[test]
fn full_entry_scenario() {
    let mut state = ParserState::new();
    let mut outputs = OutputBuffers::new();
    let events = vec![
        start("entry", vec![]),
        start("accession", vec![]),
        text("X1"),
        end("accession"),
        start("sequence", vec![attr("length", "4"), attr("checksum", "Z")]),
        text("AB\nCD"),
        end("sequence"),
        start("dbReference", vec![attr("type", "PDB"), attr("id", "1ABC"), attr("active", "Y")]),
        empty("property", vec![attr("type", "chain"), attr("value", "A")]),
        end("dbReference"),
        start("signatureSequenceMatch", vec![attr("database", "SIGDB"), attr("id", "S77")]),
        empty("ipr", vec![attr("name", "Kinase"), attr("id", "IPR001")]),
        empty("lcn", vec![attr("start", "10"), attr("end", "20")]),
        empty("lcn", vec![attr("start", "30"), attr("end", "40")]),
        end("signatureSequenceMatch"),
        end("entry"),
    ];
    assert_eq!(feed(&mut state, &mut outputs, events), Ok(()));

    assert_eq!(outputs.uniparc, vec![String::from("X1\tABCD\t4\tZ\n")]);
    assert_eq!(outputs.xref, vec![String::from("X1\t1\tPDB\t1ABC\t\tY\t\t\t\n")]);
    assert_eq!(outputs.junction.pdb_chain, vec![String::from("X1\t1\tpdb_chain\t1\n")]);
    assert_eq!(outputs.dictionary.pdb_chain, vec![String::from("X1\tpdb_chain\t1\t1ABCA\n")]);
    assert_eq!(
        outputs.domain,
        vec![
            String::from("X1\tSIGDB\tS77\tKinase\tIPR001\t10\t20\n"),
            String::from("X1\tSIGDB\tS77\tKinase\tIPR001\t30\t40\n"),
        ]
    );
    // No other channel got a row.
    assert!(outputs.junction.component.is_empty());
    assert!(outputs.junction.gene_name.is_empty());
    assert!(outputs.dictionary.component.is_empty());
    assert!(outputs.dictionary.gene_name.is_empty());

    assert_eq!(finish(&state), Ok(1));
}

/// An entry without accession or sequence elements still emits exactly one
/// sequence row, with its fields left empty.
#[test]
fn sparse_entry_still_emits_one_sequence_row() {
    let mut state = ParserState::new();
    let mut outputs = OutputBuffers::new();
    let events = vec![start("entry", vec![]), end("entry")];
    assert_eq!(feed(&mut state, &mut outputs, events), Ok(()));
    assert_eq!(outputs.uniparc, vec![String::from("\t\t0\t\n")]);
    assert!(outputs.xref.is_empty());
    assert!(outputs.domain.is_empty());
    assert_eq!(finish(&state), Ok(1));
}

/// An inactive cross-reference consumes no index and its properties are
/// skipped; the next kept cross-reference gets index one.
#[test]
fn inactive_xref_consumes_no_index_and_no_properties() {
    let mut state = ParserState::new();
    let mut outputs = OutputBuffers::new();
    let events = vec![
        start("entry", vec![]),
        start("accession", vec![]),
        text("X2"),
        end("accession"),
        start("dbReference", vec![attr("type", "EMBL"), attr("id", "E1"), attr("active", "N")]),
        empty("property", vec![attr("type", "gene_name"), attr("value", "skipped")]),
        end("dbReference"),
        start("dbReference", vec![attr("type", "EMBL"), attr("id", "E2"), attr("active", "Y")]),
        empty("property", vec![attr("type", "gene_name"), attr("value", "kept")]),
        end("dbReference"),
        end("entry"),
    ];
    assert_eq!(feed(&mut state, &mut outputs, events), Ok(()));
    assert_eq!(outputs.xref, vec![String::from("X2\t1\tEMBL\tE2\t\tY\t\t\t\n")]);
    assert_eq!(outputs.junction.gene_name, vec![String::from("X2\t1\tgene_name\t1\n")]);
    assert_eq!(outputs.dictionary.gene_name, vec![String::from("X2\tgene_name\t1\tkept\n")]);
}

/// Surrogates are per entry and per category: repeats reuse their
/// surrogate, the dictionary lists each value once in increasing surrogate
/// order, and the next entry restarts from one.
#[test]
fn surrogates_dense_per_entry_and_category() {
    let mut state = ParserState::new();
    let mut outputs = OutputBuffers::new();
    let xref = || start("dbReference", vec![attr("type", "EMBL"), attr("id", "E1"), attr("active", "Y")]);
    let prop = |v: &str| empty("property", vec![attr("type", "gene_name"), attr("value", v)]);
    let events = vec![
        start("entry", vec![]),
        start("accession", vec![]),
        text("A1"),
        end("accession"),
        xref(),
        prop("x"),
        prop("y"),
        prop("x"),
        prop("z"),
        end("dbReference"),
        end("entry"),
        start("entry", vec![]),
        start("accession", vec![]),
        text("A2"),
        end("accession"),
        xref(),
        prop("y"),
        end("dbReference"),
        end("entry"),
    ];
    assert_eq!(feed(&mut state, &mut outputs, events), Ok(()));
    // Junction rows in recorded order; the repeat of "x" reuses surrogate 1.
    assert_eq!(
        outputs.junction.gene_name,
        vec![
            String::from("A1\t1\tgene_name\t1\n"),
            String::from("A1\t1\tgene_name\t2\n"),
            String::from("A1\t1\tgene_name\t1\n"),
            String::from("A1\t1\tgene_name\t3\n"),
            String::from("A2\t1\tgene_name\t1\n"),
        ]
    );
    // Dictionary rows per entry in strictly increasing surrogate order;
    // the second entry restarts at surrogate 1.
    assert_eq!(
        outputs.dictionary.gene_name,
        vec![
            String::from("A1\tgene_name\t1\tx\n"),
            String::from("A1\tgene_name\t2\ty\n"),
            String::from("A1\tgene_name\t3\tz\n"),
            String::from("A2\tgene_name\t1\ty\n"),
        ]
    );
    assert_eq!(finish(&state), Ok(2));
}

/// A chain property under a cross-reference that is not a PDB reference is
/// the fatal chain violation; under a PDB reference the stored value is
/// the identifier prefixed to the raw value.
#[test]
fn chain_property_requires_pdb() {
    let mut state = ParserState::new();
    let mut outputs = OutputBuffers::new();
    let events = vec![
        start("entry", vec![]),
        start("dbReference", vec![attr("type", "EMBL"), attr("id", "E1"), attr("active", "Y")]),
        empty("property", vec![attr("type", "chain"), attr("value", "A")]),
    ];
    assert_eq!(feed(&mut state, &mut outputs, events), Err(FatalError::ChainWithoutPdb));
}

/// A chain property with no cross-reference at all is equally fatal.
#[test]
fn chain_property_requires_some_xref() {
    let mut state = ParserState::new();
    let mut outputs = OutputBuffers::new();
    let events = vec![
        start("entry", vec![]),
        empty("property", vec![attr("type", "chain"), attr("value", "A")]),
    ];
    assert_eq!(feed(&mut state, &mut outputs, events), Err(FatalError::ChainWithoutPdb));
}

/// One location pair yields exactly one domain row.
#[test]
fn single_location_yields_single_row() {
    let mut state = ParserState::new();
    let mut outputs = OutputBuffers::new();
    let events = vec![
        start("entry", vec![]),
        start("accession", vec![]),
        text("X3"),
        end("accession"),
        start("signatureSequenceMatch", vec![attr("database", "D"), attr("id", "S1")]),
        empty("ipr", vec![attr("name", "N"), attr("id", "I1")]),
        empty("lcn", vec![attr("start", "5"), attr("end", "9")]),
        end("signatureSequenceMatch"),
        end("entry"),
    ];
    assert_eq!(feed(&mut state, &mut outputs, events), Ok(()));
    assert_eq!(outputs.domain, vec![String::from("X3\tD\tS1\tN\tI1\t5\t9\n")]);
}

/// Truncated input: the stream ends inside an open entry. The run aborts
/// and nothing of the open entry is flushed.
#[test]
fn truncated_input_is_fatal_without_partial_flush() {
    let mut state = ParserState::new();
    let mut outputs = OutputBuffers::new();
    let events = vec![
        start("entry", vec![]),
        start("accession", vec![]),
        text("X9"),
        end("accession"),
    ];
    assert_eq!(feed(&mut state, &mut outputs, events), Ok(()));
    assert_eq!(finish(&state), Err(FatalError::TruncatedInput));
    assert!(outputs.uniparc.is_empty());
    assert!(outputs.xref.is_empty());
    assert!(outputs.domain.is_empty());
}

/// A mismatched element end is a fatal nesting violation.
#[test]
fn nesting_mismatch_is_fatal() {
    let mut state = ParserState::new();
    let mut outputs = OutputBuffers::new();
    let events = vec![start("entry", vec![]), end("accession")];
    assert_eq!(feed(&mut state, &mut outputs, events), Err(FatalError::NestingMismatch));
}

/// An element end with nothing open is a fatal nesting violation.
#[test]
fn end_with_empty_stack_is_fatal() {
    let mut state = ParserState::new();
    let mut outputs = OutputBuffers::new();
    let events = vec![end("entry")];
    assert_eq!(feed(&mut state, &mut outputs, events), Err(FatalError::NestingMismatch));
}

/// Unrecognized elements and attributes are tolerated and ignored.
#[test]
fn unknown_elements_and_attributes_are_ignored() {
    let mut state = ParserState::new();
    let mut outputs = OutputBuffers::new();
    let events = vec![
        start("entry", vec![]),
        start("mystery", vec![attr("a", "b")]),
        empty("other", vec![]),
        end("mystery"),
        start("sequence", vec![attr("length", "2"), attr("checksum", "C"), attr("extra", "?")]),
        text("GG"),
        end("sequence"),
        end("entry"),
    ];
    assert_eq!(feed(&mut state, &mut outputs, events), Ok(()));
    assert_eq!(outputs.uniparc, vec![String::from("\tGG\t2\tC\n")]);
}

/// Each remaining structural violation aborts with its own error.
#[test]
fn structural_violations_abort() {
    // Unknown property category.
    let mut state = ParserState::new();
    let mut outputs = OutputBuffers::new();
    let events = vec![
        start("entry", vec![]),
        start("dbReference", vec![attr("active", "Y")]),
        empty("property", vec![attr("type", "bogus"), attr("value", "v")]),
    ];
    assert_eq!(feed(&mut state, &mut outputs, events), Err(FatalError::UnknownCategory));

    // Property without a value attribute.
    let mut state = ParserState::new();
    let mut outputs = OutputBuffers::new();
    let events = vec![
        start("entry", vec![]),
        start("dbReference", vec![attr("active", "Y")]),
        empty("property", vec![attr("type", "gene_name")]),
    ];
    assert_eq!(feed(&mut state, &mut outputs, events), Err(FatalError::MissingPropertyValue));

    // Annotation with no open signature match.
    let mut state = ParserState::new();
    let mut outputs = OutputBuffers::new();
    let events = vec![
        start("entry", vec![]),
        empty("ipr", vec![attr("name", "N"), attr("id", "I")]),
    ];
    assert_eq!(feed(&mut state, &mut outputs, events), Err(FatalError::NoOpenDomain));

    // A second annotation of the same signature match.
    let mut state = ParserState::new();
    let mut outputs = OutputBuffers::new();
    let events = vec![
        start("entry", vec![]),
        start("signatureSequenceMatch", vec![attr("database", "D"), attr("id", "S")]),
        empty("ipr", vec![attr("name", "N"), attr("id", "I")]),
        empty("ipr", vec![attr("name", "N2"), attr("id", "I2")]),
    ];
    assert_eq!(feed(&mut state, &mut outputs, events), Err(FatalError::RepeatedAnnotation));

    // An annotation with an empty name.
    let mut state = ParserState::new();
    let mut outputs = OutputBuffers::new();
    let events = vec![
        start("entry", vec![]),
        start("signatureSequenceMatch", vec![attr("database", "D"), attr("id", "S")]),
        empty("ipr", vec![attr("id", "I")]),
    ];
    assert_eq!(feed(&mut state, &mut outputs, events), Err(FatalError::EmptyAnnotation));

    // A zero-valued span.
    let mut state = ParserState::new();
    let mut outputs = OutputBuffers::new();
    let events = vec![
        start("entry", vec![]),
        start("signatureSequenceMatch", vec![attr("database", "D"), attr("id", "S")]),
        empty("lcn", vec![attr("start", "0"), attr("end", "4")]),
    ];
    assert_eq!(feed(&mut state, &mut outputs, events), Err(FatalError::ZeroSpan));

    // A location with no open signature match.
    let mut state = ParserState::new();
    let mut outputs = OutputBuffers::new();
    let events = vec![start("entry", vec![]), empty("lcn", vec![attr("start", "1"), attr("end", "4")])];
    assert_eq!(feed(&mut state, &mut outputs, events), Err(FatalError::NoOpenDomain));

    // A non-numeric sequence length.
    let mut state = ParserState::new();
    let mut outputs = OutputBuffers::new();
    let events = vec![start("entry", vec![]), start("sequence", vec![attr("length", "four")])];
    assert_eq!(feed(&mut state, &mut outputs, events), Err(FatalError::BadNumber));

    // A non-numeric span bound.
    let mut state = ParserState::new();
    let mut outputs = OutputBuffers::new();
    let events = vec![
        start("entry", vec![]),
        start("signatureSequenceMatch", vec![attr("database", "D"), attr("id", "S")]),
        empty("lcn", vec![attr("start", "x"), attr("end", "4")]),
    ];
    assert_eq!(feed(&mut state, &mut outputs, events), Err(FatalError::BadNumber));
}
