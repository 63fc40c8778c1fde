//! Per-entry normalization of property values.
//!
//! Each of the eight property categories owns an interning table that maps
//! every distinct value seen within one entry to a dense 1-based surrogate
//! integer, assigned in first-seen order. [`Properties`] is the product of
//! one slot per category; it carries interning tables, junction rows, and
//! output channels alike.

use vstd::prelude::*;

verus! {

/// The eight property categories an entry's cross-references can carry.
#[derive(Clone, Copy, Debug, PartialEq, Eq, Structural)]
pub enum Category {
    Component,
    GeneName,
    NcbiGi,
    NcbiTaxonomyId,
    PdbChain,
    ProteinName,
    ProteomeId,
    UniprotKbAccession,
}

/// The canonical name of a category, as it appears in emitted rows.
pub open spec fn spec_category_name(c: Category) -> Seq<char> {
    match c {
        Category::Component => "component"@,
        Category::GeneName => "gene_name"@,
        Category::NcbiGi => "ncbi_gi"@,
        Category::NcbiTaxonomyId => "ncbi_taxonomy_id"@,
        Category::PdbChain => "pdb_chain"@,
        Category::ProteinName => "protein_name"@,
        Category::ProteomeId => "proteome_id"@,
        Category::UniprotKbAccession => "uniprot_kb_accession"@,
    }
}

/// The canonical name of a category, as it appears in emitted rows.
pub fn category_name(c: Category) -> (r: &'static str)
    ensures
        r@ == spec_category_name(c),
{
    match c {
        Category::Component => "component",
        Category::GeneName => "gene_name",
        Category::NcbiGi => "ncbi_gi",
        Category::NcbiTaxonomyId => "ncbi_taxonomy_id",
        Category::PdbChain => "pdb_chain",
        Category::ProteinName => "protein_name",
        Category::ProteomeId => "proteome_id",
        Category::UniprotKbAccession => "uniprot_kb_accession",
    }
}

/// The category a property element's type name selects, if any.
pub open spec fn spec_categorize(t: Seq<char>) -> Option<Category> {
    if t == "NCBI_GI"@ {
        Some(Category::NcbiGi)
    } else if t == "NCBI_taxonomy_id"@ {
        Some(Category::NcbiTaxonomyId)
    } else if t == "protein_name"@ {
        Some(Category::ProteinName)
    } else if t == "gene_name"@ {
        Some(Category::GeneName)
    } else if t == "chain"@ {
        Some(Category::PdbChain)
    } else if t == "UniProtKB_accession"@ {
        Some(Category::UniprotKbAccession)
    } else if t == "proteome_id"@ {
        Some(Category::ProteomeId)
    } else if t == "component"@ {
        Some(Category::Component)
    } else {
        None
    }
}

/// Maps a property element's type name to its category; an unrecognized
/// name yields nothing, which callers treat as fatal.
pub fn categorize(t: &str) -> (r: Option<Category>)
    ensures
        r == spec_categorize(t@),
{
    if t.eq("NCBI_GI") {
        Some(Category::NcbiGi)
    } else if t.eq("NCBI_taxonomy_id") {
        Some(Category::NcbiTaxonomyId)
    } else if t.eq("protein_name") {
        Some(Category::ProteinName)
    } else if t.eq("gene_name") {
        Some(Category::GeneName)
    } else if t.eq("chain") {
        Some(Category::PdbChain)
    } else if t.eq("UniProtKB_accession") {
        Some(Category::UniprotKbAccession)
    } else if t.eq("proteome_id") {
        Some(Category::ProteomeId)
    } else if t.eq("component") {
        Some(Category::Component)
    } else {
        None
    }
}

/// The type name of the composite chain category selects [`Category::PdbChain`].
pub proof fn lemma_categorize_chain()
    ensures
        spec_categorize("chain"@) == Some(Category::PdbChain),
{
    reveal_strlit("chain");
    reveal_strlit("NCBI_GI");
    reveal_strlit("NCBI_taxonomy_id");
    reveal_strlit("protein_name");
    reveal_strlit("gene_name");
    assert("chain"@.len() == 5);
    assert("NCBI_GI"@.len() == 7);
    assert("NCBI_taxonomy_id"@.len() == 16);
    assert("protein_name"@.len() == 12);
    assert("gene_name"@.len() == 9);
}

/// One slot of type `T` per property category.
pub struct Properties<T> {
    pub component: T,
    pub gene_name: T,
    pub ncbi_gi: T,
    pub ncbi_taxonomy_id: T,
    pub pdb_chain: T,
    pub protein_name: T,
    pub proteome_id: T,
    pub uniprot_kb_accession: T,
}

/// Ghost mirror of [`Properties`].
#[verifier::ext_equal]
pub struct PropertiesView<U> {
    pub component: U,
    pub gene_name: U,
    pub ncbi_gi: U,
    pub ncbi_taxonomy_id: U,
    pub pdb_chain: U,
    pub protein_name: U,
    pub proteome_id: U,
    pub uniprot_kb_accession: U,
}

impl<T: DeepView> View for Properties<T> {
    type V = PropertiesView<T::V>;

    open spec fn view(&self) -> PropertiesView<T::V> {
        PropertiesView {
            component: self.component.deep_view(),
            gene_name: self.gene_name.deep_view(),
            ncbi_gi: self.ncbi_gi.deep_view(),
            ncbi_taxonomy_id: self.ncbi_taxonomy_id.deep_view(),
            pdb_chain: self.pdb_chain.deep_view(),
            protein_name: self.protein_name.deep_view(),
            proteome_id: self.proteome_id.deep_view(),
            uniprot_kb_accession: self.uniprot_kb_accession.deep_view(),
        }
    }
}

/// The slot a category selects.
pub open spec fn cat_get<U>(p: PropertiesView<U>, c: Category) -> U {
    match c {
        Category::Component => p.component,
        Category::GeneName => p.gene_name,
        Category::NcbiGi => p.ncbi_gi,
        Category::NcbiTaxonomyId => p.ncbi_taxonomy_id,
        Category::PdbChain => p.pdb_chain,
        Category::ProteinName => p.protein_name,
        Category::ProteomeId => p.proteome_id,
        Category::UniprotKbAccession => p.uniprot_kb_accession,
    }
}

/// The product with one category's slot replaced.
pub open spec fn cat_set<U>(p: PropertiesView<U>, c: Category, x: U) -> PropertiesView<U> {
    match c {
        Category::Component => PropertiesView { component: x, ..p },
        Category::GeneName => PropertiesView { gene_name: x, ..p },
        Category::NcbiGi => PropertiesView { ncbi_gi: x, ..p },
        Category::NcbiTaxonomyId => PropertiesView { ncbi_taxonomy_id: x, ..p },
        Category::PdbChain => PropertiesView { pdb_chain: x, ..p },
        Category::ProteinName => PropertiesView { protein_name: x, ..p },
        Category::ProteomeId => PropertiesView { proteome_id: x, ..p },
        Category::UniprotKbAccession => PropertiesView { uniprot_kb_accession: x, ..p },
    }
}

/// The product with the same value in every slot.
pub open spec fn props_const<U>(x: U) -> PropertiesView<U> {
    PropertiesView {
        component: x,
        gene_name: x,
        ncbi_gi: x,
        ncbi_taxonomy_id: x,
        pdb_chain: x,
        protein_name: x,
        proteome_id: x,
        uniprot_kb_accession: x,
    }
}

/// Every slot of a constant product is that constant.
pub proof fn lemma_props_const_get<U>(x: U)
    ensures
        forall|c: Category| #![trigger cat_get(props_const(x), c)] cat_get(props_const(x), c)
            == x,
{
    assert forall|c: Category| #![trigger cat_get(props_const(x), c)] cat_get(props_const(x), c)
        == x by {
        match c {
            Category::Component => {},
            Category::GeneName => {},
            Category::NcbiGi => {},
            Category::NcbiTaxonomyId => {},
            Category::PdbChain => {},
            Category::ProteinName => {},
            Category::ProteomeId => {},
            Category::UniprotKbAccession => {},
        }
    }
}

/// One entry-scoped interning table: the distinct values seen so far, in
/// first-seen order. The surrogate of `values[i]` is `i + 1`.
pub struct Interner {
    pub values: Vec<String>,
}

impl View for Interner {
    type V = Seq<Seq<char>>;

    open spec fn view(&self) -> Seq<Seq<char>> {
        self.values.deep_view()
    }
}

impl DeepView for Interner {
    type V = Seq<Seq<char>>;

    open spec fn deep_view(&self) -> Seq<Seq<char>> {
        self.view()
    }
}

/// No value occurs twice in the table.
pub open spec fn distinct(t: Seq<Seq<char>>) -> bool {
    forall|i: int, j: int| 0 <= i < j < t.len() ==> t[i] != t[j]
}

/// The surrogate already assigned to a value present in a distinct table.
pub open spec fn spec_surrogate(t: Seq<Seq<char>>, v: Seq<char>) -> int {
    (choose|i: int| 0 <= i < t.len() && t[i] == v) + 1
}

/// What interning does to a table: an unseen value is appended and gets
/// the next surrogate; a seen value leaves the table unchanged and gets
/// the surrogate it already had.
pub open spec fn spec_intern(t: Seq<Seq<char>>, v: Seq<char>) -> (Seq<Seq<char>>, int) {
    if t.contains(v) {
        (t, spec_surrogate(t, v))
    } else {
        (t.push(v), t.len() as int + 1)
    }
}

impl Interner {
    /// A table with nothing interned yet.
    pub fn new() -> (r: Interner)
        ensures
            r@ =~= Seq::<Seq<char>>::empty(),
    {
        Interner { values: Vec::new() }
    }

    /// Interning is the sole mutation, so a distinct table stays distinct;
    /// re-interning a value returns its existing surrogate without growing
    /// the table.
    pub fn intern(&mut self, value: String) -> (r: u64)
        requires
            distinct(old(self)@),
            old(self)@.len() < u64::MAX,
        ensures
            final(self)@ == spec_intern(old(self)@, value@).0,
            r as int == spec_intern(old(self)@, value@).1,
            distinct(final(self)@),
    {
        let n = self.values.len();
        let mut i: usize = 0;
        while i < n
            invariant
                0 <= i <= n,
                n == self@.len(),
                distinct(self@),
                self@.len() < u64::MAX,
                forall|j: int| 0 <= j < i ==> self@[j] != value@,
            decreases n - i,
        {
            if self.values[i] == value {
                proof {
                    assert(self@[i as int] == value@);
                    assert(self@.contains(value@));
                    let w = choose|k: int| 0 <= k < self@.len() && self@[k] == value@;
                    assert(w == i as int);
                }
                return (i as u64) + 1;
            }
            i += 1;
        }
        proof {
            assert(forall|j: int| 0 <= j < self@.len() ==> self@[j] != value@);
            assert(!self@.contains(value@));
        }
        let ghost prior = self@;
        self.values.push(value);
        proof {
            assert(self@ =~= prior.push(value@));
        }
        (self.values.len() as u64)
    }
}

impl Default for Interner {
    /// Same as [`Interner::new`].
    fn default() -> (r: Interner)
        ensures
            r@ =~= Seq::<Seq<char>>::empty(),
    {
        Interner::new()
    }
}

impl Default for Properties<Interner> {
    /// Empty interning tables in every category, as an entry starts with.
    fn default() -> (r: Properties<Interner>)
        ensures
            r@ =~= props_const(Seq::<Seq<char>>::empty()),
    {
        Properties {
            component: Interner::new(),
            gene_name: Interner::new(),
            ncbi_gi: Interner::new(),
            ncbi_taxonomy_id: Interner::new(),
            pdb_chain: Interner::new(),
            protein_name: Interner::new(),
            proteome_id: Interner::new(),
            uniprot_kb_accession: Interner::new(),
        }
    }
}

impl<T: DeepView> Default for Properties<Vec<T>> {
    /// Empty row lists in every category.
    fn default() -> (r: Properties<Vec<T>>)
        ensures
            r@ =~= props_const(Seq::<T::V>::empty()),
    {
        Properties {
            component: Vec::new(),
            gene_name: Vec::new(),
            ncbi_gi: Vec::new(),
            ncbi_taxonomy_id: Vec::new(),
            pdb_chain: Vec::new(),
            protein_name: Vec::new(),
            proteome_id: Vec::new(),
            uniprot_kb_accession: Vec::new(),
        }
    }
}

/// Every category's interning table holds each value at most once.
pub open spec fn interners_distinct(p: PropertiesView<Seq<Seq<char>>>) -> bool {
    forall|c: Category| #![trigger cat_get(p, c)] distinct(cat_get(p, c))
}

/// Every category's interning table still has a surrogate to hand out.
pub open spec fn interners_room(p: PropertiesView<Seq<Seq<char>>>) -> bool {
    forall|c: Category| #![trigger cat_get(p, c)] cat_get(p, c).len() < u64::MAX
}

/// Every category's interning table is distinct and below the surrogate
/// limit.
pub open spec fn interners_wf(p: PropertiesView<Seq<Seq<char>>>) -> bool {
    interners_distinct(p) && interners_room(p)
}

/// Interning preserves distinctness: a seen value changes nothing, an
/// unseen one is appended and so occurs once.
pub proof fn lemma_intern_distinct(t: Seq<Seq<char>>, v: Seq<char>)
    requires
        distinct(t),
    ensures
        distinct(spec_intern(t, v).0),
{
    if !t.contains(v) {
        let t2 = t.push(v);
        assert forall|i: int, j: int| 0 <= i < j < t2.len() implies t2[i] != t2[j] by {
            if j == t.len() as int {
                assert(t2[i] == t[i]);
                assert(t.contains(t[i]));
            }
        }
    }
}

impl Properties<Interner> {
    /// Interns a value in the table its category selects.
    pub fn intern(&mut self, cat: Category, value: String) -> (r: u64)
        requires
            interners_wf(old(self)@),
        ensures
            final(self)@ =~= cat_set(
                old(self)@,
                cat,
                spec_intern(cat_get(old(self)@, cat), value@).0,
            ),
            r as int == spec_intern(cat_get(old(self)@, cat), value@).1,
    {
        proof {
            assert(distinct(cat_get(self@, cat)) && cat_get(self@, cat).len() < u64::MAX);
        }
        match cat {
            Category::Component => self.component.intern(value),
            Category::GeneName => self.gene_name.intern(value),
            Category::NcbiGi => self.ncbi_gi.intern(value),
            Category::NcbiTaxonomyId => self.ncbi_taxonomy_id.intern(value),
            Category::PdbChain => self.pdb_chain.intern(value),
            Category::ProteinName => self.protein_name.intern(value),
            Category::ProteomeId => self.proteome_id.intern(value),
            Category::UniprotKbAccession => self.uniprot_kb_accession.intern(value),
        }
    }
}

impl<T: DeepView> Properties<Vec<T>> {
    /// Appends a row to the list its category selects.
    pub fn push_row(&mut self, cat: Category, row: T)
        ensures
            final(self)@ =~= cat_set(
                old(self)@,
                cat,
                cat_get(old(self)@, cat).push(row.deep_view()),
            ),
    {
        match cat {
            Category::Component => self.component.push(row),
            Category::GeneName => self.gene_name.push(row),
            Category::NcbiGi => self.ncbi_gi.push(row),
            Category::NcbiTaxonomyId => self.ncbi_taxonomy_id.push(row),
            Category::PdbChain => self.pdb_chain.push(row),
            Category::ProteinName => self.protein_name.push(row),
            Category::ProteomeId => self.proteome_id.push(row),
            Category::UniprotKbAccession => self.uniprot_kb_accession.push(row),
        }
    }
}

/// A surrogate handed out by interning resolves in the resulting table,
/// which never shrinks.
pub proof fn lemma_spec_intern_bounds(t: Seq<Seq<char>>, v: Seq<char>)
    ensures
        1 <= spec_intern(t, v).1 <= spec_intern(t, v).0.len(),
        t.len() <= spec_intern(t, v).0.len(),
        spec_intern(t, v).0[spec_intern(t, v).1 - 1] == v,
{
    if t.contains(v) {
        let w = choose|i: int| 0 <= i < t.len() && t[i] == v;
        assert(0 <= w < t.len());
    }
}

/// Interning the same value twice in one entry yields the same surrogate
/// both times and does not grow the table; in a fresh entry the numbering
/// restarts at one.
pub proof fn lemma_intern_idempotent(t: Seq<Seq<char>>, v: Seq<char>)
    requires
        distinct(t),
    ensures
        spec_intern(spec_intern(t, v).0, v).1 == spec_intern(t, v).1,
        spec_intern(spec_intern(t, v).0, v).0 == spec_intern(t, v).0,
        spec_intern(Seq::<Seq<char>>::empty(), v).1 == 1,
{
    let (t1, s1) = spec_intern(t, v);
    if t.contains(v) {
        let w = choose|i: int| 0 <= i < t.len() && t[i] == v;
        assert(t1 == t);
        assert(t1.contains(v));
        let w2 = choose|i: int| 0 <= i < t1.len() && t1[i] == v;
        assert(w2 == w);
    } else {
        assert(t1 == t.push(v));
        assert(t1[t.len() as int] == v);
        assert(t1.contains(v));
        let w2 = choose|i: int| 0 <= i < t1.len() && t1[i] == v;
        assert(forall|i: int| 0 <= i < t.len() ==> t1[i] == t[i]);
        assert(w2 == t.len() as int);
    }
    let e = Seq::<Seq<char>>::empty();
    assert(!e.contains(v));
}

} // verus!
