//! The streaming driver: one entry at a time, one event at a time.
//!
//! [`process_event`] is the transition function of the whole transformer:
//! it takes the parser state, the output channels, and one markup event,
//! and either advances both exactly as [`spec_step`] describes or reports
//! the structural violation that aborts the run. An unverified shell owns
//! the tokenizer and the byte sinks; it feeds events in and drains the
//! channels after each entry.

use vstd::prelude::*;
use crate::handlers::{
    add_domain_definitions, add_interpro_annotation, add_property, add_signature_sequence_match,
    add_sequence, add_uniparc_xref, junction_rows_resolve, lemma_add_property_keeps_resolution,
    lemma_resolution_monotone, spec_add_interpro, spec_add_locations, spec_add_property,
    spec_add_sequence, spec_add_signature_match, spec_add_uniparc_xref,
};
use crate::model::{
    Attr, FatalError, Uniparc, UniparcDomain, UniparcDomainView, UniparcProperty,
    UniparcPropertyView, UniparcView, UniparcXRef, UniparcXRefView,
};
use crate::properties::{
    cat_get, interners_distinct, interners_room, props_const, Category, Interner, Properties,
    PropertiesView,
};
use crate::text::{spec_strip_newlines, strip_newlines};
use crate::writer::{
    spec_write_domains, spec_write_properties, spec_write_uniparc, spec_write_xrefs,
    write_uniparc, write_uniparc_domains, write_uniparc_properties, write_uniparc_xrefs,
    OutputBuffers, OutputBuffersView,
};

verus! {

/// Where element text is currently routed.
#[derive(Clone, Copy, Debug, PartialEq, Eq, Structural)]
pub enum TextField {
    Accession,
    Sequence,
}

/// One markup event from the tokenizer, already decoded to plain text:
/// an element start with its attributes, a self-closing element with its
/// attributes, element text, or an element end.
pub enum MarkupEvent {
    Start(String, Vec<Attr>),
    Empty(String, Vec<Attr>),
    Text(String),
    End(String),
}

/// The working set of the entry currently being read.
pub struct EntryState {
    pub uniparc: Uniparc,
    pub xrefs: Vec<UniparcXRef>,
    pub domains: Vec<UniparcDomain>,
    pub interners: Properties<Interner>,
    pub junctions: Properties<Vec<UniparcProperty>>,
}

/// Ghost mirror of [`EntryState`].
#[verifier::ext_equal]
pub struct EntryStateView {
    pub uniparc: UniparcView,
    pub xrefs: Seq<UniparcXRefView>,
    pub domains: Seq<UniparcDomainView>,
    pub interners: PropertiesView<Seq<Seq<char>>>,
    pub junctions: PropertiesView<Seq<UniparcPropertyView>>,
}

impl View for EntryState {
    type V = EntryStateView;

    open spec fn view(&self) -> EntryStateView {
        EntryStateView {
            uniparc: self.uniparc@,
            xrefs: self.xrefs.deep_view(),
            domains: self.domains.deep_view(),
            interners: self.interners@,
            junctions: self.junctions@,
        }
    }
}

/// The state an entry's working set has at its start event.
pub open spec fn entry_empty() -> EntryStateView {
    EntryStateView {
        uniparc: UniparcView::empty(),
        xrefs: Seq::<UniparcXRefView>::empty(),
        domains: Seq::<UniparcDomainView>::empty(),
        interners: props_const(Seq::<Seq<char>>::empty()),
        junctions: props_const(Seq::<UniparcPropertyView>::empty()),
    }
}

impl EntryState {
    /// A fresh working set, as each entry boundary installs.
    pub fn new() -> (r: EntryState)
        ensures
            r@ =~= entry_empty(),
    {
        EntryState {
            uniparc: Uniparc::empty(),
            xrefs: Vec::new(),
            domains: Vec::new(),
            interners: Default::default(),
            junctions: Default::default(),
        }
    }
}

/// The driver's whole state between events: the entry working set, the
/// stack of open elements, the keep flag of the current cross-reference,
/// the text routing selector, and the count of entries started.
pub struct ParserState {
    pub entry: EntryState,
    pub element_stack: Vec<String>,
    pub keep_xref: bool,
    pub text_field: TextField,
    pub count: u64,
}

/// Ghost mirror of [`ParserState`].
#[verifier::ext_equal]
pub struct ParserStateView {
    pub entry: EntryStateView,
    pub element_stack: Seq<Seq<char>>,
    pub keep_xref: bool,
    pub text_field: TextField,
    pub count: u64,
}

impl View for ParserState {
    type V = ParserStateView;

    open spec fn view(&self) -> ParserStateView {
        ParserStateView {
            entry: self.entry@,
            element_stack: self.element_stack.deep_view(),
            keep_xref: self.keep_xref,
            text_field: self.text_field,
            count: self.count,
        }
    }
}

/// The state before the first event.
pub open spec fn parser_init() -> ParserStateView {
    ParserStateView {
        entry: entry_empty(),
        element_stack: Seq::<Seq<char>>::empty(),
        keep_xref: true,
        text_field: TextField::Accession,
        count: 0,
    }
}

impl ParserState {
    /// The state before the first event: nothing open, nothing read. It
    /// satisfies the driver's invariant and has full counter headroom.
    pub fn new() -> (r: ParserState)
        ensures
            r@ =~= parser_init(),
            wf(r@),
            room(r@),
    {
        let r = ParserState {
            entry: EntryState::new(),
            element_stack: Vec::new(),
            keep_xref: true,
            text_field: TextField::Accession,
            count: 0,
        };
        proof {
            crate::properties::lemma_props_const_get(Seq::<Seq<char>>::empty());
            crate::properties::lemma_props_const_get(Seq::<UniparcPropertyView>::empty());
        }
        r
    }
}

/// The driver's invariant: kept cross-references carry the dense indices
/// one up to their count, in order; every interning table is
/// duplicate-free; and every junction row recorded so far resolves, both
/// into its category's dictionary and into the kept cross-references.
pub open spec fn wf(s: ParserStateView) -> bool {
    &&& forall|i: int|
        #![trigger s.entry.xrefs[i]]
        0 <= i < s.entry.xrefs.len() ==> s.entry.xrefs[i].xref_id as int == i + 1
    &&& interners_distinct(s.entry.interners)
    &&& junction_rows_resolve(
        s.entry.junctions,
        s.entry.interners,
        s.entry.xrefs.len() as int,
    )
}

/// The machine-limit headroom the next event may need: the entry counter,
/// the cross-reference index, and every surrogate counter can still grow.
pub open spec fn room(s: ParserStateView) -> bool {
    &&& s.count < u64::MAX
    &&& s.entry.xrefs.len() < u64::MAX
    &&& interners_room(s.entry.interners)
}

/// Runtime check of [`room`], for callers outside the proof.
pub fn has_room(state: &ParserState) -> (r: bool)
    ensures
        r == room(state@),
{
    let i = &state.entry.interners;
    let counters = state.count < u64::MAX && (state.entry.xrefs.len() as u64) < u64::MAX;
    let tables = (i.component.values.len() as u64) < u64::MAX && (i.gene_name.values.len()
        as u64) < u64::MAX && (i.ncbi_gi.values.len() as u64) < u64::MAX
        && (i.ncbi_taxonomy_id.values.len() as u64) < u64::MAX && (i.pdb_chain.values.len()
        as u64) < u64::MAX && (i.protein_name.values.len() as u64) < u64::MAX
        && (i.proteome_id.values.len() as u64) < u64::MAX && (i.uniprot_kb_accession.values.len()
        as u64) < u64::MAX;
    let r = counters && tables;
    proof {
        assert(cat_get(i@, Category::Component) == i.component.deep_view());
        assert(cat_get(i@, Category::GeneName) == i.gene_name.deep_view());
        assert(cat_get(i@, Category::NcbiGi) == i.ncbi_gi.deep_view());
        assert(cat_get(i@, Category::NcbiTaxonomyId) == i.ncbi_taxonomy_id.deep_view());
        assert(cat_get(i@, Category::PdbChain) == i.pdb_chain.deep_view());
        assert(cat_get(i@, Category::ProteinName) == i.protein_name.deep_view());
        assert(cat_get(i@, Category::ProteomeId) == i.proteome_id.deep_view());
        assert(cat_get(i@, Category::UniprotKbAccession) == i.uniprot_kb_accession.deep_view());
        if r {
            assert forall|c: Category| #![trigger cat_get(i@, c)] cat_get(i@, c).len()
                < u64::MAX by {
                match c {
                    Category::Component => {},
                    Category::GeneName => {},
                    Category::NcbiGi => {},
                    Category::NcbiTaxonomyId => {},
                    Category::PdbChain => {},
                    Category::ProteinName => {},
                    Category::ProteomeId => {},
                    Category::UniprotKbAccession => {},
                }
            }
        }
    }
    r
}

/// Emission of one finished entry to the channels, in the fixed order:
/// the one sequence row, the kept cross-references, the property tables,
/// the domain rows.
pub open spec fn spec_flush(o: OutputBuffersView, e: EntryStateView) -> OutputBuffersView {
    spec_write_domains(
        spec_write_properties(
            spec_write_xrefs(spec_write_uniparc(o, e.uniparc), e.xrefs),
            e.uniparc.uniparc_id,
            e.interners,
            e.junctions,
        ),
        e.domains,
    )
}

/// Serializes one finished entry's rows to the channels.
pub fn flush_entry(outputs: &mut OutputBuffers, entry: &EntryState)
    requires
        interners_room(entry@.interners),
    ensures
        final(outputs)@ == spec_flush(old(outputs)@, entry@),
{
    write_uniparc(outputs, &entry.uniparc);
    write_uniparc_xrefs(outputs, &entry.xrefs);
    write_uniparc_properties(outputs, &entry.interners, &entry.junctions, &entry.uniparc.uniparc_id);
    write_uniparc_domains(outputs, &entry.domains);
}

/// The transition relation of the driver, one event at a time. The state
/// after the event and the rows it appends are a function of the state,
/// the channels, and the event; a structural violation yields the error
/// that aborts the run.
pub open spec fn spec_step(
    s: ParserStateView,
    o: OutputBuffersView,
    ev: MarkupEvent,
) -> Result<(ParserStateView, OutputBuffersView), FatalError> {
    match ev {
        MarkupEvent::Start(name, attrs) => {
            let stacked = s.element_stack.push(name@);
            if name@ == "entry"@ {
                Ok(
                    (
                        ParserStateView {
                            entry: entry_empty(),
                            element_stack: stacked,
                            count: (s.count + 1) as u64,
                            ..s
                        },
                        o,
                    ),
                )
            } else if name@ == "dbReference"@ {
                let kept = spec_add_uniparc_xref(
                    s.entry.uniparc.uniparc_id,
                    s.entry.xrefs,
                    attrs.deep_view(),
                );
                Ok(
                    (
                        ParserStateView {
                            entry: EntryStateView { xrefs: kept.0, ..s.entry },
                            element_stack: stacked,
                            keep_xref: kept.1,
                            ..s
                        },
                        o,
                    ),
                )
            } else if name@ == "signatureSequenceMatch"@ {
                Ok(
                    (
                        ParserStateView {
                            entry: EntryStateView {
                                domains: spec_add_signature_match(
                                    s.entry.uniparc.uniparc_id,
                                    s.entry.domains,
                                    attrs.deep_view(),
                                ),
                                ..s.entry
                            },
                            element_stack: stacked,
                            ..s
                        },
                        o,
                    ),
                )
            } else if name@ == "accession"@ {
                Ok(
                    (
                        ParserStateView {
                            text_field: TextField::Accession,
                            element_stack: stacked,
                            ..s
                        },
                        o,
                    ),
                )
            } else if name@ == "sequence"@ {
                match spec_add_sequence(s.entry.uniparc, attrs.deep_view()) {
                    Ok(u) => Ok(
                        (
                            ParserStateView {
                                entry: EntryStateView { uniparc: u, ..s.entry },
                                text_field: TextField::Sequence,
                                element_stack: stacked,
                                ..s
                            },
                            o,
                        ),
                    ),
                    Err(e) => Err(e),
                }
            } else {
                Ok((ParserStateView { element_stack: stacked, ..s }, o))
            }
        },
        MarkupEvent::Empty(name, attrs) => {
            if name@ == "dbReference"@ {
                let kept = spec_add_uniparc_xref(
                    s.entry.uniparc.uniparc_id,
                    s.entry.xrefs,
                    attrs.deep_view(),
                );
                Ok(
                    (
                        ParserStateView {
                            entry: EntryStateView { xrefs: kept.0, ..s.entry },
                            keep_xref: kept.1,
                            ..s
                        },
                        o,
                    ),
                )
            } else if name@ == "property"@ {
                if s.keep_xref {
                    match spec_add_property(
                        s.entry.uniparc.uniparc_id,
                        s.entry.xrefs,
                        s.entry.interners,
                        s.entry.junctions,
                        attrs.deep_view(),
                    ) {
                        Ok(updated) => Ok(
                            (
                                ParserStateView {
                                    entry: EntryStateView {
                                        interners: updated.0,
                                        junctions: updated.1,
                                        ..s.entry
                                    },
                                    ..s
                                },
                                o,
                            ),
                        ),
                        Err(e) => Err(e),
                    }
                } else {
                    Ok((s, o))
                }
            } else if name@ == "ipr"@ {
                match spec_add_interpro(s.entry.domains, attrs.deep_view()) {
                    Ok(ds) => Ok(
                        (
                            ParserStateView {
                                entry: EntryStateView { domains: ds, ..s.entry },
                                ..s
                            },
                            o,
                        ),
                    ),
                    Err(e) => Err(e),
                }
            } else if name@ == "lcn"@ {
                match spec_add_locations(s.entry.domains, attrs.deep_view()) {
                    Ok(ds) => Ok(
                        (
                            ParserStateView {
                                entry: EntryStateView { domains: ds, ..s.entry },
                                ..s
                            },
                            o,
                        ),
                    ),
                    Err(e) => Err(e),
                }
            } else {
                Ok((s, o))
            }
        },
        MarkupEvent::Text(t) => {
            match s.text_field {
                TextField::Accession => Ok(
                    (
                        ParserStateView {
                            entry: EntryStateView {
                                uniparc: UniparcView {
                                    uniparc_id: spec_strip_newlines(t@),
                                    ..s.entry.uniparc
                                },
                                ..s.entry
                            },
                            ..s
                        },
                        o,
                    ),
                ),
                TextField::Sequence => Ok(
                    (
                        ParserStateView {
                            entry: EntryStateView {
                                uniparc: UniparcView {
                                    sequence: spec_strip_newlines(t@),
                                    ..s.entry.uniparc
                                },
                                ..s.entry
                            },
                            ..s
                        },
                        o,
                    ),
                ),
            }
        },
        MarkupEvent::End(name) => {
            let o2 = if name@ == "entry"@ {
                spec_flush(o, s.entry)
            } else {
                o
            };
            if s.element_stack.len() == 0 || s.element_stack.last() != name@ {
                Err(FatalError::NestingMismatch)
            } else {
                Ok((ParserStateView { element_stack: s.element_stack.drop_last(), ..s }, o2))
            }
        },
    }
}

/// Advances the driver by one event: the new state and the appended rows
/// are exactly what [`spec_step`] gives; a structural violation returns
/// its fatal error, on which the run must stop consuming input.
pub fn process_event(
    state: &mut ParserState,
    outputs: &mut OutputBuffers,
    event: MarkupEvent,
) -> (r: Result<(), FatalError>)
    requires
        wf(old(state)@),
        room(old(state)@),
    ensures
        match spec_step(old(state)@, old(outputs)@, event) {
            Ok(next) => r == Ok::<(), FatalError>(()) && final(state)@ == next.0
                && final(outputs)@ == next.1 && wf(next.0),
            Err(e) => r == Err::<(), FatalError>(e),
        },
{
    let ghost pre = state@;
    let ghost preo = outputs@;
    let ghost ev = event;
    match event {
        MarkupEvent::Start(name, attrs) => {
            let ghost nm = name@;
            if name.as_str().eq("entry") {
                state.entry = EntryState::new();
                state.count = state.count + 1;
                proof {
                    crate::properties::lemma_props_const_get(Seq::<Seq<char>>::empty());
                    crate::properties::lemma_props_const_get(
                        Seq::<UniparcPropertyView>::empty(),
                    );
                }
            } else if name.as_str().eq("dbReference") {
                proof {
                    assert(state.entry.xrefs@.len() == pre.entry.xrefs.len());
                }
                let keep = add_uniparc_xref(
                    state.entry.uniparc.uniparc_id.clone(),
                    &mut state.entry.xrefs,
                    &attrs,
                );
                state.keep_xref = keep;
                proof {
                    lemma_step_keeps_xrefs_dense(pre, attrs.deep_view());
                    let kept = spec_add_uniparc_xref(
                        pre.entry.uniparc.uniparc_id,
                        pre.entry.xrefs,
                        attrs.deep_view(),
                    );
                    lemma_resolution_monotone(
                        pre.entry.junctions,
                        pre.entry.interners,
                        pre.entry.xrefs.len() as int,
                        kept.0.len() as int,
                    );
                }
            } else if name.as_str().eq("signatureSequenceMatch") {
                add_signature_sequence_match(
                    state.entry.uniparc.uniparc_id.clone(),
                    &mut state.entry.domains,
                    &attrs,
                );
            } else if name.as_str().eq("accession") {
                state.text_field = TextField::Accession;
            } else if name.as_str().eq("sequence") {
                state.text_field = TextField::Sequence;
                match add_sequence(&mut state.entry.uniparc, &attrs) {
                    Ok(()) => {},
                    Err(e) => {
                        return Err(e);
                    },
                }
            }
            state.element_stack.push(name);
            proof {
                assert(state@.element_stack =~= pre.element_stack.push(nm));
                let stepped = spec_step(pre, preo, ev);
                assert(stepped is Ok);
                assert(state@ =~= stepped.unwrap().0);
                assert(wf(stepped.unwrap().0));
            }
            Ok(())
        },
        MarkupEvent::Empty(name, attrs) => {
            if name.as_str().eq("dbReference") {
                proof {
                    assert(state.entry.xrefs@.len() == pre.entry.xrefs.len());
                }
                let keep = add_uniparc_xref(
                    state.entry.uniparc.uniparc_id.clone(),
                    &mut state.entry.xrefs,
                    &attrs,
                );
                state.keep_xref = keep;
                proof {
                    lemma_step_keeps_xrefs_dense(pre, attrs.deep_view());
                    let kept = spec_add_uniparc_xref(
                        pre.entry.uniparc.uniparc_id,
                        pre.entry.xrefs,
                        attrs.deep_view(),
                    );
                    lemma_resolution_monotone(
                        pre.entry.junctions,
                        pre.entry.interners,
                        pre.entry.xrefs.len() as int,
                        kept.0.len() as int,
                    );
                }
            } else if name.as_str().eq("property") {
                if state.keep_xref {
                    proof {
                        assert(state.entry.xrefs@.len() == pre.entry.xrefs.len());
                    }
                    proof {
                        lemma_add_property_keeps_resolution(
                            pre.entry.uniparc.uniparc_id,
                            pre.entry.xrefs,
                            pre.entry.interners,
                            pre.entry.junctions,
                            attrs.deep_view(),
                        );
                    }
                    match add_property(
                        state.entry.uniparc.uniparc_id.clone(),
                        &state.entry.xrefs,
                        &mut state.entry.interners,
                        &mut state.entry.junctions,
                        &attrs,
                    ) {
                        Ok(()) => {},
                        Err(e) => {
                            return Err(e);
                        },
                    }
                }
            } else if name.as_str().eq("ipr") {
                match add_interpro_annotation(&mut state.entry.domains, &attrs) {
                    Ok(()) => {},
                    Err(e) => {
                        return Err(e);
                    },
                }
            } else if name.as_str().eq("lcn") {
                match add_domain_definitions(&mut state.entry.domains, &attrs) {
                    Ok(()) => {},
                    Err(e) => {
                        return Err(e);
                    },
                }
            }
            proof {
                let stepped = spec_step(pre, preo, ev);
                assert(stepped is Ok);
                assert(state@ =~= stepped.unwrap().0);
                assert(wf(stepped.unwrap().0));
            }
            Ok(())
        },
        MarkupEvent::Text(t) => {
            let joined = strip_newlines(t.as_str());
            match state.text_field {
                TextField::Accession => {
                    state.entry.uniparc.uniparc_id = joined;
                },
                TextField::Sequence => {
                    state.entry.uniparc.sequence = joined;
                },
            }
            proof {
                let stepped = spec_step(pre, preo, ev);
                assert(stepped is Ok);
                assert(state@ =~= stepped.unwrap().0);
                assert(wf(stepped.unwrap().0));
            }
            Ok(())
        },
        MarkupEvent::End(name) => {
            if name.as_str().eq("entry") {
                flush_entry(outputs, &state.entry);
            }
            if state.element_stack.len() == 0 {
                return Err(FatalError::NestingMismatch);
            }
            proof {
                assert(pre.element_stack.last() == state.element_stack@.last()@);
            }
            let top = state.element_stack.pop().unwrap();
            if !top.as_str().eq(name.as_str()) {
                return Err(FatalError::NestingMismatch);
            }
            proof {
                assert(state@.element_stack =~= pre.element_stack.drop_last());
                let stepped = spec_step(pre, preo, ev);
                assert(stepped is Ok);
                assert(state@ =~= stepped.unwrap().0);
                assert(outputs@ == stepped.unwrap().1);
                assert(wf(stepped.unwrap().0));
            }
            Ok(())
        },
    }
}

/// A kept cross-reference extends a dense index run by exactly the next
/// index, so the run stays dense.
proof fn lemma_step_keeps_xrefs_dense(pre: ParserStateView, attrs: Seq<crate::model::AttrView>)
    requires
        wf(pre),
        room(pre),
    ensures
        ({
            let kept = spec_add_uniparc_xref(pre.entry.uniparc.uniparc_id, pre.entry.xrefs, attrs);
            forall|i: int|
                #![trigger kept.0[i]]
                0 <= i < kept.0.len() ==> kept.0[i].xref_id as int == i + 1
        }),
{
    let blank = crate::handlers::spec_blank_xref(
        pre.entry.uniparc.uniparc_id,
        (pre.entry.xrefs.len() + 1) as u64,
    );
    crate::handlers::lemma_xref_attrs_keep_identity(blank, attrs, attrs.len() as int);
    let kept = spec_add_uniparc_xref(pre.entry.uniparc.uniparc_id, pre.entry.xrefs, attrs);
    if kept.1 {
        assert(kept.0 == pre.entry.xrefs.push(
            crate::handlers::spec_xref_attrs(blank, attrs, attrs.len() as int),
        ));
        assert forall|i: int| #![trigger kept.0[i]] 0 <= i < kept.0.len() implies kept.0[i].xref_id
            as int == i + 1 by {
            if i < pre.entry.xrefs.len() {
                assert(kept.0[i] == pre.entry.xrefs[i]);
            }
        }
    }
}

/// Flushing an entry emits exactly one sequence row — sparse entries with
/// empty fields still produce theirs — and exactly one row per kept
/// cross-reference, in kept order.
pub proof fn lemma_flush_row_counts(o: OutputBuffersView, e: EntryStateView)
    ensures
        spec_flush(o, e).uniparc == o.uniparc.push(crate::writer::spec_uniparc_row(e.uniparc)),
        spec_flush(o, e).uniparc.len() == o.uniparc.len() + 1,
        spec_flush(o, e).xref == o.xref + crate::writer::spec_xref_rows(e.xrefs),
        spec_flush(o, e).xref.len() == o.xref.len() + e.xrefs.len(),
{
}

/// The indices the kept cross-references carry are dense: in a
/// well-formed state the `i`-th kept cross-reference, and so the `i`-th
/// emitted cross-reference row, has index `i + 1` — a dropped
/// cross-reference consumes none.
pub proof fn lemma_xref_indices_dense(s: ParserStateView)
    requires
        wf(s),
    ensures
        forall|i: int|
            #![trigger s.entry.xrefs[i]]
            0 <= i < s.entry.xrefs.len() ==> s.entry.xrefs[i].xref_id as int == i + 1,
{
}

/// A property element seen while the current cross-reference was dropped
/// changes nothing at all: no junction row, no interning, no output.
pub proof fn lemma_dropped_xref_skips_properties(
    s: ParserStateView,
    o: OutputBuffersView,
    name: String,
    attrs: Vec<Attr>,
)
    requires
        !s.keep_xref,
        name@ == "property"@,
    ensures
        spec_step(s, o, MarkupEvent::Empty(name, attrs)) == Ok::<
            (ParserStateView, OutputBuffersView),
            FatalError,
        >((s, o)),
{
    reveal_strlit("property");
    reveal_strlit("dbReference");
    assert("property"@.len() == 8);
    assert("dbReference"@.len() == 11);
}

/// An entry boundary discards the whole working set: nothing carries over
/// from one entry to the next except the entry counter, the open-element
/// stack, and the text and keep selectors. In particular every interning
/// table restarts empty, so surrogates are never comparable across entries.
pub proof fn lemma_entry_boundary_resets(
    s: ParserStateView,
    o: OutputBuffersView,
    name: String,
    attrs: Vec<Attr>,
)
    requires
        room(s),
        name@ == "entry"@,
    ensures
        spec_step(s, o, MarkupEvent::Start(name, attrs)) == Ok::<
            (ParserStateView, OutputBuffersView),
            FatalError,
        >(
            (
                ParserStateView {
                    entry: entry_empty(),
                    element_stack: s.element_stack.push(name@),
                    count: (s.count + 1) as u64,
                    ..s
                },
                o,
            ),
        ),
{
}

/// Rows reach the output channels only when an entry ends: every other
/// event leaves every channel untouched, and the end of an entry appends
/// exactly the entry's flush. In particular a run that aborts mid-entry
/// has written nothing of that entry.
pub proof fn lemma_rows_emitted_only_at_entry_end(
    s: ParserStateView,
    o: OutputBuffersView,
    ev: MarkupEvent,
)
    ensures
        match spec_step(s, o, ev) {
            Ok(next) => match ev {
                MarkupEvent::End(name) => next.1 == if name@ == "entry"@ {
                    spec_flush(o, s.entry)
                } else {
                    o
                },
                _ => next.1 == o,
            },
            Err(_) => true,
        },
{
}

/// End of stream. With every element closed, the run reports how many
/// entries it processed; a still-open element means the input was
/// truncated, which is fatal — the open entry is not flushed.
pub fn finish(state: &ParserState) -> (r: Result<u64, FatalError>)
    ensures
        state@.element_stack.len() == 0 ==> r == Ok::<u64, FatalError>(state@.count),
        state@.element_stack.len() != 0 ==> r == Err::<u64, FatalError>(
            FatalError::TruncatedInput,
        ),
{
    if state.element_stack.len() == 0 {
        Ok(state.count)
    } else {
        Err(FatalError::TruncatedInput)
    }
}

} // verus!
