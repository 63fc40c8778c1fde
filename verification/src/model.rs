//! Record types for one archive entry: the sequence record, its
//! cross-references, the junction rows that attach interned property values
//! to cross-references, and the domain-match rows.
//!
//! Each executable type has a ghost mirror (`...View`) over `Seq<char>` so
//! that contracts can speak of the records mathematically.

use vstd::prelude::*;

verus! {

/// One attribute of a markup element, already decoded to plain text.
pub struct Attr {
    pub key: String,
    pub value: String,
}

/// Ghost mirror of [`Attr`].
#[verifier::ext_equal]
pub struct AttrView {
    pub key: Seq<char>,
    pub value: Seq<char>,
}

impl View for Attr {
    type V = AttrView;

    open spec fn view(&self) -> AttrView {
        AttrView { key: self.key@, value: self.value@ }
    }
}

impl DeepView for Attr {
    type V = AttrView;

    open spec fn deep_view(&self) -> AttrView {
        self.view()
    }
}

/// The sequence record of one entry: identifier, residue text, and the
/// length/checksum attributes of the sequence element.
pub struct Uniparc {
    pub uniparc_id: String,
    pub sequence: String,
    pub sequence_length: u32,
    pub sequence_checksum: String,
}

/// Ghost mirror of [`Uniparc`].
#[verifier::ext_equal]
pub struct UniparcView {
    pub uniparc_id: Seq<char>,
    pub sequence: Seq<char>,
    pub sequence_length: u32,
    pub sequence_checksum: Seq<char>,
}

impl View for Uniparc {
    type V = UniparcView;

    open spec fn view(&self) -> UniparcView {
        UniparcView {
            uniparc_id: self.uniparc_id@,
            sequence: self.sequence@,
            sequence_length: self.sequence_length,
            sequence_checksum: self.sequence_checksum@,
        }
    }
}

impl UniparcView {
    /// The state of the sequence record at an entry boundary.
    pub open spec fn empty() -> UniparcView {
        UniparcView {
            uniparc_id: Seq::<char>::empty(),
            sequence: Seq::<char>::empty(),
            sequence_length: 0,
            sequence_checksum: Seq::<char>::empty(),
        }
    }
}

impl Uniparc {
    /// A fresh record with every field empty, as an entry starts with.
    pub fn empty() -> (r: Uniparc)
        ensures
            r@ =~= UniparcView::empty(),
    {
        Uniparc {
            uniparc_id: String::new(),
            sequence: String::new(),
            sequence_length: 0,
            sequence_checksum: String::new(),
        }
    }
}

/// A cross-reference from the entry to a record in an external database.
/// `xref_id` is 1-based and assigned in first-seen order over the kept
/// (active) cross-references only.
pub struct UniparcXRef {
    pub uniparc_id: String,
    pub xref_id: u64,
    pub db_type: String,
    pub db_id: String,
    pub version_i: String,
    pub active: String,
    pub version: String,
    pub created: String,
    pub last: String,
}

/// Ghost mirror of [`UniparcXRef`].
#[verifier::ext_equal]
pub struct UniparcXRefView {
    pub uniparc_id: Seq<char>,
    pub xref_id: u64,
    pub db_type: Seq<char>,
    pub db_id: Seq<char>,
    pub version_i: Seq<char>,
    pub active: Seq<char>,
    pub version: Seq<char>,
    pub created: Seq<char>,
    pub last: Seq<char>,
}

impl View for UniparcXRef {
    type V = UniparcXRefView;

    open spec fn view(&self) -> UniparcXRefView {
        UniparcXRefView {
            uniparc_id: self.uniparc_id@,
            xref_id: self.xref_id,
            db_type: self.db_type@,
            db_id: self.db_id@,
            version_i: self.version_i@,
            active: self.active@,
            version: self.version@,
            created: self.created@,
            last: self.last@,
        }
    }
}

impl DeepView for UniparcXRef {
    type V = UniparcXRefView;

    open spec fn deep_view(&self) -> UniparcXRefView {
        self.view()
    }
}

/// A junction row attaching one interned property value to the
/// cross-reference that was current when the property was seen.
pub struct UniparcProperty {
    pub uniparc_id: String,
    pub xref_id: u64,
    pub property: String,
    pub surrogate: u64,
}

/// Ghost mirror of [`UniparcProperty`].
#[verifier::ext_equal]
pub struct UniparcPropertyView {
    pub uniparc_id: Seq<char>,
    pub xref_id: u64,
    pub property: Seq<char>,
    pub surrogate: u64,
}

impl View for UniparcProperty {
    type V = UniparcPropertyView;

    open spec fn view(&self) -> UniparcPropertyView {
        UniparcPropertyView {
            uniparc_id: self.uniparc_id@,
            xref_id: self.xref_id,
            property: self.property@,
            surrogate: self.surrogate,
        }
    }
}

impl DeepView for UniparcProperty {
    type V = UniparcPropertyView;

    open spec fn deep_view(&self) -> UniparcPropertyView {
        self.view()
    }
}

/// One domain-match row: a signature database hit, its optional InterPro
/// annotation, and one location span. A signature match with several
/// location fragments becomes several rows differing only in the span.
pub struct UniparcDomain {
    pub uniparc_id: String,
    pub database: String,
    pub database_id: String,
    pub interpro_name: String,
    pub interpro_id: String,
    pub domain_start: u32,
    pub domain_end: u32,
}

/// Ghost mirror of [`UniparcDomain`].
#[verifier::ext_equal]
pub struct UniparcDomainView {
    pub uniparc_id: Seq<char>,
    pub database: Seq<char>,
    pub database_id: Seq<char>,
    pub interpro_name: Seq<char>,
    pub interpro_id: Seq<char>,
    pub domain_start: u32,
    pub domain_end: u32,
}

impl View for UniparcDomain {
    type V = UniparcDomainView;

    open spec fn view(&self) -> UniparcDomainView {
        UniparcDomainView {
            uniparc_id: self.uniparc_id@,
            database: self.database@,
            database_id: self.database_id@,
            interpro_name: self.interpro_name@,
            interpro_id: self.interpro_id@,
            domain_start: self.domain_start,
            domain_end: self.domain_end,
        }
    }
}

impl DeepView for UniparcDomain {
    type V = UniparcDomainView;

    open spec fn deep_view(&self) -> UniparcDomainView {
        self.view()
    }
}

impl UniparcDomain {
    /// A field-for-field copy, used when a signature match carries more
    /// than one location fragment.
    pub fn duplicate(&self) -> (r: UniparcDomain)
        ensures
            r@ =~= self@,
    {
        UniparcDomain {
            uniparc_id: self.uniparc_id.clone(),
            database: self.database.clone(),
            database_id: self.database_id.clone(),
            interpro_name: self.interpro_name.clone(),
            interpro_id: self.interpro_id.clone(),
            domain_start: self.domain_start,
            domain_end: self.domain_end,
        }
    }
}

/// A structural violation of the assumed input grammar, or a machine limit.
/// Every variant aborts the run: the accumulator's invariants admit no local
/// recovery once the grammar is broken.
#[derive(Clone, Copy, Debug, PartialEq, Eq, Structural)]
pub enum FatalError {
    /// An element end did not match the innermost open element.
    NestingMismatch,
    /// The stream ended while elements were still open.
    TruncatedInput,
    /// A property element carried no recognized category name.
    UnknownCategory,
    /// A property element lacked its value attribute.
    MissingPropertyValue,
    /// A chain property appeared while the current kept cross-reference
    /// was absent or not a PDB reference.
    ChainWithoutPdb,
    /// An InterPro or location annotation arrived with no open signature match.
    NoOpenDomain,
    /// A signature match was annotated with InterPro fields twice.
    RepeatedAnnotation,
    /// An InterPro annotation arrived with an empty name or identifier.
    EmptyAnnotation,
    /// A location span had a zero start or end.
    ZeroSpan,
    /// A numeric attribute did not parse as an unsigned integer.
    BadNumber,
}

} // verus!
