//! Row serialization and the per-table output channels.
//!
//! Every table row is a line of tab-separated fields. Each record type
//! knows its own row text ([`Writable`]); the write functions append rows
//! to the in-memory channel of the table they belong to. An unverified
//! shell owns the actual byte sinks and drains the channels.

use vstd::prelude::*;
use vstd::string::StringExecFns;
use crate::model::{
    Uniparc, UniparcDomain, UniparcDomainView, UniparcProperty, UniparcPropertyView, UniparcView,
    UniparcXRef, UniparcXRefView,
};
use crate::properties::{spec_category_name, Category, Interner, Properties, PropertiesView};
use crate::properties::category_name;
use crate::text::{dec_str, push_char, u64_to_string};

verus! {

/// The field separator.
pub open spec fn tab() -> Seq<char> {
    seq!['\t']
}

/// The row terminator.
pub open spec fn nl() -> Seq<char> {
    seq!['\n']
}

/// Appends one field and the separator after it.
fn push_field(s: &mut String, f: &str)
    ensures
        final(s)@ == old(s)@ + f@ + tab(),
{
    s.append(f);
    push_char(s, '\t');
    proof {
        assert(s@ =~= old(s)@ + f@ + tab());
    }
}

/// The sequence-table row: entry id, residues, length, checksum.
pub open spec fn spec_uniparc_row(u: UniparcView) -> Seq<char> {
    u.uniparc_id + tab() + u.sequence + tab() + dec_str(u.sequence_length as nat) + tab()
        + u.sequence_checksum + nl()
}

/// The cross-reference-table row: entry id, index, and the seven
/// attribute fields.
pub open spec fn spec_xref_row(x: UniparcXRefView) -> Seq<char> {
    x.uniparc_id + tab() + dec_str(x.xref_id as nat) + tab() + x.db_type + tab() + x.db_id + tab()
        + x.version_i + tab() + x.active + tab() + x.version + tab() + x.created + tab() + x.last
        + nl()
}

/// The domain-table row: entry id, signature database and identifier,
/// InterPro annotation, and the span.
pub open spec fn spec_domain_row(d: UniparcDomainView) -> Seq<char> {
    d.uniparc_id + tab() + d.database + tab() + d.database_id + tab() + d.interpro_name + tab()
        + d.interpro_id + tab() + dec_str(d.domain_start as nat) + tab() + dec_str(
        d.domain_end as nat,
    ) + nl()
}

/// A junction-table row: entry id, cross-reference index, category,
/// surrogate.
pub open spec fn spec_junction_row(p: UniparcPropertyView) -> Seq<char> {
    p.uniparc_id + tab() + dec_str(p.xref_id as nat) + tab() + p.property + tab() + dec_str(
        p.surrogate as nat,
    ) + nl()
}

/// A dictionary-table row: entry id, category, surrogate, value.
pub open spec fn spec_dict_row(
    uniparc_id: Seq<char>,
    cat: Category,
    surrogate: u64,
    value: Seq<char>,
) -> Seq<char> {
    uniparc_id + tab() + spec_category_name(cat) + tab() + dec_str(surrogate as nat) + tab()
        + value + nl()
}

/// A record that serializes itself as one tab-separated row.
pub trait Writable {
    /// The row text this record serializes to.
    spec fn row(&self) -> Seq<char>;

    /// Serializes the record; the result is exactly [`Writable::row`].
    fn to_csv(&self) -> (r: String)
        ensures
            r@ == self.row(),
    ;
}

impl Writable for Uniparc {
    open spec fn row(&self) -> Seq<char> {
        spec_uniparc_row(self@)
    }

    fn to_csv(&self) -> (r: String)
        ensures
            r@ == self.row(),
    {
        let mut s = String::new();
        push_field(&mut s, self.uniparc_id.as_str());
        push_field(&mut s, self.sequence.as_str());
        let len_str = u64_to_string(self.sequence_length as u64);
        push_field(&mut s, len_str.as_str());
        s.append(self.sequence_checksum.as_str());
        push_char(&mut s, '\n');
        proof {
            assert(s@ =~= spec_uniparc_row(self@));
        }
        s
    }
}

impl Writable for UniparcXRef {
    open spec fn row(&self) -> Seq<char> {
        spec_xref_row(self@)
    }

    fn to_csv(&self) -> (r: String)
        ensures
            r@ == self.row(),
    {
        let mut s = String::new();
        push_field(&mut s, self.uniparc_id.as_str());
        let idx_str = u64_to_string(self.xref_id);
        push_field(&mut s, idx_str.as_str());
        push_field(&mut s, self.db_type.as_str());
        push_field(&mut s, self.db_id.as_str());
        push_field(&mut s, self.version_i.as_str());
        push_field(&mut s, self.active.as_str());
        push_field(&mut s, self.version.as_str());
        push_field(&mut s, self.created.as_str());
        s.append(self.last.as_str());
        push_char(&mut s, '\n');
        proof {
            assert(s@ =~= spec_xref_row(self@));
        }
        s
    }
}

impl Writable for UniparcDomain {
    open spec fn row(&self) -> Seq<char> {
        spec_domain_row(self@)
    }

    fn to_csv(&self) -> (r: String)
        ensures
            r@ == self.row(),
    {
        let mut s = String::new();
        push_field(&mut s, self.uniparc_id.as_str());
        push_field(&mut s, self.database.as_str());
        push_field(&mut s, self.database_id.as_str());
        push_field(&mut s, self.interpro_name.as_str());
        push_field(&mut s, self.interpro_id.as_str());
        let start_str = u64_to_string(self.domain_start as u64);
        push_field(&mut s, start_str.as_str());
        let end_str = u64_to_string(self.domain_end as u64);
        s.append(end_str.as_str());
        push_char(&mut s, '\n');
        proof {
            assert(s@ =~= spec_domain_row(self@));
        }
        s
    }
}

impl Writable for UniparcProperty {
    open spec fn row(&self) -> Seq<char> {
        spec_junction_row(self@)
    }

    fn to_csv(&self) -> (r: String)
        ensures
            r@ == self.row(),
    {
        let mut s = String::new();
        push_field(&mut s, self.uniparc_id.as_str());
        let idx_str = u64_to_string(self.xref_id);
        push_field(&mut s, idx_str.as_str());
        push_field(&mut s, self.property.as_str());
        let sur_str = u64_to_string(self.surrogate);
        s.append(sur_str.as_str());
        push_char(&mut s, '\n');
        proof {
            assert(s@ =~= spec_junction_row(self@));
        }
        s
    }
}

/// Serializes one dictionary row.
fn dict_row_to_csv(uniparc_id: &str, cat: Category, surrogate: u64, value: &str) -> (r: String)
    ensures
        r@ == spec_dict_row(uniparc_id@, cat, surrogate, value@),
{
    let mut s = String::new();
    push_field(&mut s, uniparc_id);
    push_field(&mut s, category_name(cat));
    let sur_str = u64_to_string(surrogate);
    push_field(&mut s, sur_str.as_str());
    s.append(value);
    push_char(&mut s, '\n');
    proof {
        assert(s@ =~= spec_dict_row(uniparc_id@, cat, surrogate, value@));
    }
    s
}

/// The in-memory output channels, one per table: the sequence, domain and
/// cross-reference tables, and one junction and one dictionary channel per
/// property category. Each channel is an ordered list of serialized rows.
pub struct OutputBuffers {
    pub uniparc: Vec<String>,
    pub domain: Vec<String>,
    pub xref: Vec<String>,
    pub junction: Properties<Vec<String>>,
    pub dictionary: Properties<Vec<String>>,
}

/// Ghost mirror of [`OutputBuffers`].
#[verifier::ext_equal]
pub struct OutputBuffersView {
    pub uniparc: Seq<Seq<char>>,
    pub domain: Seq<Seq<char>>,
    pub xref: Seq<Seq<char>>,
    pub junction: PropertiesView<Seq<Seq<char>>>,
    pub dictionary: PropertiesView<Seq<Seq<char>>>,
}

impl View for OutputBuffers {
    type V = OutputBuffersView;

    open spec fn view(&self) -> OutputBuffersView {
        OutputBuffersView {
            uniparc: self.uniparc.deep_view(),
            domain: self.domain.deep_view(),
            xref: self.xref.deep_view(),
            junction: self.junction@,
            dictionary: self.dictionary@,
        }
    }
}

/// Every channel empty.
pub open spec fn out_empty() -> OutputBuffersView {
    OutputBuffersView {
        uniparc: Seq::<Seq<char>>::empty(),
        domain: Seq::<Seq<char>>::empty(),
        xref: Seq::<Seq<char>>::empty(),
        junction: crate::properties::props_const(Seq::<Seq<char>>::empty()),
        dictionary: crate::properties::props_const(Seq::<Seq<char>>::empty()),
    }
}

impl OutputBuffers {
    /// Fresh channels with no rows written yet.
    pub fn new() -> (r: OutputBuffers)
        ensures
            r@ =~= out_empty(),
    {
        OutputBuffers {
            uniparc: Vec::new(),
            domain: Vec::new(),
            xref: Vec::new(),
            junction: Default::default(),
            dictionary: Default::default(),
        }
    }
}

/// The serialized rows of a list of cross-references, in order.
pub open spec fn spec_xref_rows(xs: Seq<UniparcXRefView>) -> Seq<Seq<char>> {
    Seq::new(xs.len(), |i: int| spec_xref_row(xs[i]))
}

/// The serialized rows of a list of domain matches, in order.
pub open spec fn spec_domain_rows(ds: Seq<UniparcDomainView>) -> Seq<Seq<char>> {
    Seq::new(ds.len(), |i: int| spec_domain_row(ds[i]))
}

/// The serialized rows of a list of junction records, in order.
pub open spec fn spec_junction_rows(ps: Seq<UniparcPropertyView>) -> Seq<Seq<char>> {
    Seq::new(ps.len(), |i: int| spec_junction_row(ps[i]))
}

/// The dictionary rows of one interning table: row `i` maps surrogate
/// `i + 1` to the table's `i`-th value, so surrogates strictly increase
/// down the channel.
pub open spec fn spec_dict_rows(
    uniparc_id: Seq<char>,
    cat: Category,
    t: Seq<Seq<char>>,
) -> Seq<Seq<char>> {
    Seq::new(t.len(), |i: int| spec_dict_row(uniparc_id, cat, (i + 1) as u64, t[i]))
}

/// Emission of the sequence record: exactly one row, whatever the record
/// holds.
pub open spec fn spec_write_uniparc(o: OutputBuffersView, u: UniparcView) -> OutputBuffersView {
    OutputBuffersView { uniparc: o.uniparc.push(spec_uniparc_row(u)), ..o }
}

/// Emission of the domain rows in creation order.
pub open spec fn spec_write_domains(
    o: OutputBuffersView,
    ds: Seq<UniparcDomainView>,
) -> OutputBuffersView {
    OutputBuffersView { domain: o.domain + spec_domain_rows(ds), ..o }
}

/// Emission of the kept cross-references in kept order.
pub open spec fn spec_write_xrefs(
    o: OutputBuffersView,
    xs: Seq<UniparcXRefView>,
) -> OutputBuffersView {
    OutputBuffersView { xref: o.xref + spec_xref_rows(xs), ..o }
}

/// Emission of the property tables: junction rows in recorded order to
/// each category's junction channel, dictionary rows in increasing
/// surrogate order to each category's dictionary channel.
pub open spec fn spec_write_properties(
    o: OutputBuffersView,
    uniparc_id: Seq<char>,
    interners: PropertiesView<Seq<Seq<char>>>,
    junctions: PropertiesView<Seq<UniparcPropertyView>>,
) -> OutputBuffersView {
    OutputBuffersView {
        junction: PropertiesView {
            component: o.junction.component + spec_junction_rows(junctions.component),
            gene_name: o.junction.gene_name + spec_junction_rows(junctions.gene_name),
            ncbi_gi: o.junction.ncbi_gi + spec_junction_rows(junctions.ncbi_gi),
            ncbi_taxonomy_id: o.junction.ncbi_taxonomy_id + spec_junction_rows(
                junctions.ncbi_taxonomy_id,
            ),
            pdb_chain: o.junction.pdb_chain + spec_junction_rows(junctions.pdb_chain),
            protein_name: o.junction.protein_name + spec_junction_rows(junctions.protein_name),
            proteome_id: o.junction.proteome_id + spec_junction_rows(junctions.proteome_id),
            uniprot_kb_accession: o.junction.uniprot_kb_accession + spec_junction_rows(
                junctions.uniprot_kb_accession,
            ),
        },
        dictionary: PropertiesView {
            component: o.dictionary.component + spec_dict_rows(
                uniparc_id,
                Category::Component,
                interners.component,
            ),
            gene_name: o.dictionary.gene_name + spec_dict_rows(
                uniparc_id,
                Category::GeneName,
                interners.gene_name,
            ),
            ncbi_gi: o.dictionary.ncbi_gi + spec_dict_rows(
                uniparc_id,
                Category::NcbiGi,
                interners.ncbi_gi,
            ),
            ncbi_taxonomy_id: o.dictionary.ncbi_taxonomy_id + spec_dict_rows(
                uniparc_id,
                Category::NcbiTaxonomyId,
                interners.ncbi_taxonomy_id,
            ),
            pdb_chain: o.dictionary.pdb_chain + spec_dict_rows(
                uniparc_id,
                Category::PdbChain,
                interners.pdb_chain,
            ),
            protein_name: o.dictionary.protein_name + spec_dict_rows(
                uniparc_id,
                Category::ProteinName,
                interners.protein_name,
            ),
            proteome_id: o.dictionary.proteome_id + spec_dict_rows(
                uniparc_id,
                Category::ProteomeId,
                interners.proteome_id,
            ),
            uniprot_kb_accession: o.dictionary.uniprot_kb_accession + spec_dict_rows(
                uniparc_id,
                Category::UniprotKbAccession,
                interners.uniprot_kb_accession,
            ),
        },
        ..o
    }
}

/// Appends the one sequence row of the entry to its channel.
pub fn write_uniparc(outputs: &mut OutputBuffers, uniparc: &Uniparc)
    ensures
        final(outputs)@ == spec_write_uniparc(old(outputs)@, uniparc@),
{
    let row = uniparc.to_csv();
    outputs.uniparc.push(row);
    proof {
        assert(outputs@.uniparc =~= old(outputs)@.uniparc.push(spec_uniparc_row(uniparc@)));
        assert(outputs@ =~= spec_write_uniparc(old(outputs)@, uniparc@));
    }
}

/// Appends every domain row of the entry, in creation order.
pub fn write_uniparc_domains(outputs: &mut OutputBuffers, uniparc_domains: &Vec<UniparcDomain>)
    ensures
        final(outputs)@ == spec_write_domains(old(outputs)@, uniparc_domains.deep_view()),
{
    let n = uniparc_domains.len();
    let mut i: usize = 0;
    while i < n
        invariant
            0 <= i <= n,
            n == uniparc_domains@.len(),
            outputs@.domain =~= old(outputs)@.domain + spec_domain_rows(
                uniparc_domains.deep_view().take(i as int),
            ),
            outputs@.uniparc == old(outputs)@.uniparc,
            outputs@.xref == old(outputs)@.xref,
            outputs@.junction == old(outputs)@.junction,
            outputs@.dictionary == old(outputs)@.dictionary,
        decreases n - i,
    {
        proof {
            assert(uniparc_domains.deep_view()[i as int] == uniparc_domains@[i as int]@);
        }
        let row = uniparc_domains[i].to_csv();
        let ghost pre = outputs@.domain;
        outputs.domain.push(row);
        proof {
            let ds = uniparc_domains.deep_view();
            assert(outputs@.domain =~= pre.push(spec_domain_row(ds[i as int])));
            assert(spec_domain_rows(ds.take(i + 1)) =~= spec_domain_rows(ds.take(i as int)).push(
                spec_domain_row(ds[i as int]),
            ));
            assert(outputs@.domain =~= old(outputs)@.domain + spec_domain_rows(ds.take(i + 1)));
        }
        i += 1;
    }
    proof {
        assert(uniparc_domains.deep_view().take(n as int) =~= uniparc_domains.deep_view());
        assert(outputs@ =~= spec_write_domains(old(outputs)@, uniparc_domains.deep_view()));
    }
}

/// Appends every kept cross-reference row of the entry, in kept order.
pub fn write_uniparc_xrefs(outputs: &mut OutputBuffers, uniparc_xrefs: &Vec<UniparcXRef>)
    ensures
        final(outputs)@ == spec_write_xrefs(old(outputs)@, uniparc_xrefs.deep_view()),
{
    let n = uniparc_xrefs.len();
    let mut i: usize = 0;
    while i < n
        invariant
            0 <= i <= n,
            n == uniparc_xrefs@.len(),
            outputs@.xref =~= old(outputs)@.xref + spec_xref_rows(
                uniparc_xrefs.deep_view().take(i as int),
            ),
            outputs@.uniparc == old(outputs)@.uniparc,
            outputs@.domain == old(outputs)@.domain,
            outputs@.junction == old(outputs)@.junction,
            outputs@.dictionary == old(outputs)@.dictionary,
        decreases n - i,
    {
        proof {
            assert(uniparc_xrefs.deep_view()[i as int] == uniparc_xrefs@[i as int]@);
        }
        let row = uniparc_xrefs[i].to_csv();
        let ghost pre = outputs@.xref;
        outputs.xref.push(row);
        proof {
            let xs = uniparc_xrefs.deep_view();
            assert(outputs@.xref =~= pre.push(spec_xref_row(xs[i as int])));
            assert(spec_xref_rows(xs.take(i + 1)) =~= spec_xref_rows(xs.take(i as int)).push(
                spec_xref_row(xs[i as int]),
            ));
            assert(outputs@.xref =~= old(outputs)@.xref + spec_xref_rows(xs.take(i + 1)));
        }
        i += 1;
    }
    proof {
        assert(uniparc_xrefs.deep_view().take(n as int) =~= uniparc_xrefs.deep_view());
        assert(outputs@ =~= spec_write_xrefs(old(outputs)@, uniparc_xrefs.deep_view()));
    }
}

/// The interning table read out as (surrogate, value) pairs in strictly
/// increasing surrogate order: pair `i` is `(i + 1, values[i])`.
pub fn sorted(interner: &Interner) -> (r: Vec<(u64, String)>)
    requires
        interner@.len() < u64::MAX,
    ensures
        r@.len() == interner@.len(),
        forall|i: int| #![trigger r@[i]] 0 <= i < r@.len() ==> r@[i].0 as int == i + 1
            && r@[i].1@ == interner@[i],
        forall|i: int, j: int| #![trigger r@[i], r@[j]] 0 <= i < j < r@.len() ==> r@[i].0
            < r@[j].0,
{
    let n = interner.values.len();
    let mut list: Vec<(u64, String)> = Vec::new();
    let mut i: usize = 0;
    while i < n
        invariant
            0 <= i <= n,
            n == interner@.len(),
            n < u64::MAX,
            list@.len() == i,
            forall|j: int| #![trigger list@[j]] 0 <= j < i ==> list@[j].0 as int == j + 1
                && list@[j].1@ == interner@[j],
        decreases n - i,
    {
        proof {
            assert(interner@[i as int] == interner.values@[i as int]@);
        }
        let value = interner.values[i].clone();
        let ghost vv = value@;
        proof {
            assert(vv == interner.values@[i as int]@);
            assert(vv == interner@[i as int]);
        }
        let ghost prior = list@;
        list.push((i as u64 + 1, value));
        proof {
            assert(list@.len() == i + 1);
            assert(list@[i as int].0 == i as u64 + 1);
            assert(list@[i as int].1@ == vv);
            assert forall|j: int| 0 <= j <= i implies list@[j].0 as int == j + 1 && list@[j].1@
                == interner@[j] by {
                if j < i {
                    assert(list@[j] == prior[j]);
                    assert(prior[j].0 as int == j + 1);
                    assert(prior[j].1@ == interner@[j]);
                } else {
                    assert(list@[j].0 as int == j + 1);
                    assert(list@[j].1@ == interner@[j]);
                }
            }
        }
        i += 1;
    }
    list
}

/// Appends one category's junction rows, in recorded order.
fn write_junction_channel(channel: &mut Vec<String>, rows: &Vec<UniparcProperty>)
    ensures
        final(channel).deep_view() == old(channel).deep_view() + spec_junction_rows(
            rows.deep_view(),
        ),
{
    let n = rows.len();
    let mut i: usize = 0;
    while i < n
        invariant
            0 <= i <= n,
            n == rows@.len(),
            channel.deep_view() =~= old(channel).deep_view() + spec_junction_rows(
                rows.deep_view().take(i as int),
            ),
        decreases n - i,
    {
        proof {
            assert(rows.deep_view()[i as int] == rows@[i as int]@);
        }
        let row = rows[i].to_csv();
        let ghost pre = channel.deep_view();
        channel.push(row);
        proof {
            assert(channel.deep_view() =~= pre.push(spec_junction_row(rows.deep_view()[i as int])));
            assert(spec_junction_rows(rows.deep_view().take(i + 1)) =~= spec_junction_rows(
                rows.deep_view().take(i as int),
            ).push(spec_junction_row(rows.deep_view()[i as int])));
            assert(channel.deep_view() =~= old(channel).deep_view() + spec_junction_rows(
                rows.deep_view().take(i + 1),
            ));
        }
        i += 1;
    }
    proof {
        assert(rows.deep_view().take(n as int) =~= rows.deep_view());
    }
}

/// Appends one category's dictionary rows, in increasing surrogate order.
fn write_dict_channel(
    channel: &mut Vec<String>,
    uniparc_id: &String,
    cat: Category,
    table: &Interner,
)
    requires
        table@.len() < u64::MAX,
    ensures
        final(channel).deep_view() == old(channel).deep_view() + spec_dict_rows(
            uniparc_id@,
            cat,
            table@,
        ),
{
    let pairs = sorted(table);
    let n = pairs.len();
    let mut i: usize = 0;
    while i < n
        invariant
            0 <= i <= n,
            n == pairs@.len(),
            pairs@.len() == table@.len(),
            forall|j: int| #![trigger pairs@[j]] 0 <= j < n ==> pairs@[j].0 as int == j + 1
                && pairs@[j].1@ == table@[j],
            channel.deep_view() =~= old(channel).deep_view() + spec_dict_rows(
                uniparc_id@,
                cat,
                table@.take(i as int),
            ),
        decreases n - i,
    {
        let row = dict_row_to_csv(
            uniparc_id.as_str(),
            cat,
            pairs[i].0,
            pairs[i].1.as_str(),
        );
        proof {
            assert(row@ == spec_dict_row(uniparc_id@, cat, (i + 1) as u64, table@[i as int]));
        }
        let ghost pre = channel.deep_view();
        channel.push(row);
        proof {
            assert(channel.deep_view() =~= pre.push(
                spec_dict_row(uniparc_id@, cat, (i + 1) as u64, table@[i as int]),
            ));
            assert(spec_dict_rows(uniparc_id@, cat, table@.take(i + 1)) =~= spec_dict_rows(
                uniparc_id@,
                cat,
                table@.take(i as int),
            ).push(spec_dict_row(uniparc_id@, cat, (i + 1) as u64, table@[i as int])));
            assert(channel.deep_view() =~= old(channel).deep_view() + spec_dict_rows(
                uniparc_id@,
                cat,
                table@.take(i + 1),
            ));
        }
        i += 1;
    }
    proof {
        assert(table@.take(n as int) =~= table@);
    }
}

/// Appends every property row of the entry: for each category, the
/// junction rows in recorded order and the dictionary rows in increasing
/// surrogate order.
pub fn write_uniparc_properties(
    outputs: &mut OutputBuffers,
    properties: &Properties<Interner>,
    junctions: &Properties<Vec<UniparcProperty>>,
    uniparc_id: &String,
)
    requires
        crate::properties::interners_room(properties@),
    ensures
        final(outputs)@ == spec_write_properties(
            old(outputs)@,
            uniparc_id@,
            properties@,
            junctions@,
        ),
{
    write_junction_channel(&mut outputs.junction.component, &junctions.component);
    write_junction_channel(&mut outputs.junction.gene_name, &junctions.gene_name);
    write_junction_channel(&mut outputs.junction.ncbi_gi, &junctions.ncbi_gi);
    write_junction_channel(&mut outputs.junction.ncbi_taxonomy_id, &junctions.ncbi_taxonomy_id);
    write_junction_channel(&mut outputs.junction.pdb_chain, &junctions.pdb_chain);
    write_junction_channel(&mut outputs.junction.protein_name, &junctions.protein_name);
    write_junction_channel(&mut outputs.junction.proteome_id, &junctions.proteome_id);
    write_junction_channel(
        &mut outputs.junction.uniprot_kb_accession,
        &junctions.uniprot_kb_accession,
    );
    proof {
        assert(crate::properties::cat_get(properties@, Category::Component)
            == properties.component.deep_view());
        assert(crate::properties::cat_get(properties@, Category::GeneName)
            == properties.gene_name.deep_view());
        assert(crate::properties::cat_get(properties@, Category::NcbiGi)
            == properties.ncbi_gi.deep_view());
        assert(crate::properties::cat_get(properties@, Category::NcbiTaxonomyId)
            == properties.ncbi_taxonomy_id.deep_view());
        assert(crate::properties::cat_get(properties@, Category::PdbChain)
            == properties.pdb_chain.deep_view());
        assert(crate::properties::cat_get(properties@, Category::ProteinName)
            == properties.protein_name.deep_view());
        assert(crate::properties::cat_get(properties@, Category::ProteomeId)
            == properties.proteome_id.deep_view());
        assert(crate::properties::cat_get(properties@, Category::UniprotKbAccession)
            == properties.uniprot_kb_accession.deep_view());
    }
    write_dict_channel(
        &mut outputs.dictionary.component,
        uniparc_id,
        Category::Component,
        &properties.component,
    );
    write_dict_channel(
        &mut outputs.dictionary.gene_name,
        uniparc_id,
        Category::GeneName,
        &properties.gene_name,
    );
    write_dict_channel(
        &mut outputs.dictionary.ncbi_gi,
        uniparc_id,
        Category::NcbiGi,
        &properties.ncbi_gi,
    );
    write_dict_channel(
        &mut outputs.dictionary.ncbi_taxonomy_id,
        uniparc_id,
        Category::NcbiTaxonomyId,
        &properties.ncbi_taxonomy_id,
    );
    write_dict_channel(
        &mut outputs.dictionary.pdb_chain,
        uniparc_id,
        Category::PdbChain,
        &properties.pdb_chain,
    );
    write_dict_channel(
        &mut outputs.dictionary.protein_name,
        uniparc_id,
        Category::ProteinName,
        &properties.protein_name,
    );
    write_dict_channel(
        &mut outputs.dictionary.proteome_id,
        uniparc_id,
        Category::ProteomeId,
        &properties.proteome_id,
    );
    write_dict_channel(
        &mut outputs.dictionary.uniprot_kb_accession,
        uniparc_id,
        Category::UniprotKbAccession,
        &properties.uniprot_kb_accession,
    );
    proof {
        assert(outputs@ =~= spec_write_properties(
            old(outputs)@,
            uniparc_id@,
            properties@,
            junctions@,
        ));
    }
}

} // verus!
