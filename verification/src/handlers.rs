//! Element handlers: one mutation function per recognized element kind.
//!
//! Each handler has a spec-level twin (`spec_...`) that defines its effect
//! on the ghost mirror of the accumulator; the executable handler's
//! contract says it computes exactly that twin. The driver's step function
//! is assembled from these twins.

use vstd::prelude::*;
use vstd::string::StringExecFns;
use crate::model::{
    Attr, AttrView, FatalError, Uniparc, UniparcDomain, UniparcDomainView, UniparcProperty,
    UniparcPropertyView, UniparcView, UniparcXRef, UniparcXRefView,
};
use crate::properties::{
    cat_get, cat_set, categorize, category_name, interners_distinct, interners_wf,
    spec_categorize, spec_category_name, spec_intern, Category, Interner, Properties,
    PropertiesView,
};
use crate::text::{parse_u32, spec_parse_u32};

verus! {

/// The value of the first attribute with the given key, if any.
pub open spec fn spec_find_attr(attrs: Seq<AttrView>, key: Seq<char>) -> Option<Seq<char>>
    decreases attrs.len(),
{
    if attrs.len() == 0 {
        None
    } else if attrs[0].key == key {
        Some(attrs[0].value)
    } else {
        spec_find_attr(attrs.drop_first(), key)
    }
}

/// Looks up an attribute by name, returning the first match.
pub fn find_attr(attrs: &Vec<Attr>, key: &str) -> (r: Option<String>)
    ensures
        match r {
            Some(v) => spec_find_attr(attrs.deep_view(), key@) == Some(v@),
            None => spec_find_attr(attrs.deep_view(), key@) is None,
        },
{
    let n = attrs.len();
    let mut i: usize = 0;
    proof {
        assert(attrs.deep_view().skip(0) =~= attrs.deep_view());
    }
    while i < n
        invariant
            0 <= i <= n,
            n == attrs@.len(),
            spec_find_attr(attrs.deep_view(), key@) == spec_find_attr(
                attrs.deep_view().skip(i as int),
                key@,
            ),
        decreases n - i,
    {
        proof {
            assert(attrs.deep_view().skip(i as int)[0] == attrs.deep_view()[i as int]);
            assert(attrs.deep_view()[i as int] == attrs@[i as int]@);
            assert(attrs.deep_view().skip(i as int).drop_first() =~= attrs.deep_view().skip(
                i + 1,
            ));
        }
        if attrs[i].key.as_str().eq(key) {
            return Some(attrs[i].value.clone());
        }
        i += 1;
    }
    proof {
        assert(attrs.deep_view().skip(n as int) =~= Seq::<AttrView>::empty());
    }
    None
}

/// A cross-reference with every text field empty and the given identity.
pub open spec fn spec_blank_xref(uniparc_id: Seq<char>, xref_id: u64) -> UniparcXRefView {
    UniparcXRefView {
        uniparc_id: uniparc_id,
        xref_id: xref_id,
        db_type: Seq::<char>::empty(),
        db_id: Seq::<char>::empty(),
        version_i: Seq::<char>::empty(),
        active: Seq::<char>::empty(),
        version: Seq::<char>::empty(),
        created: Seq::<char>::empty(),
        last: Seq::<char>::empty(),
    }
}

/// One cross-reference attribute applied to the record; an unrecognized
/// name changes nothing.
pub open spec fn spec_xref_attr(x: UniparcXRefView, a: AttrView) -> UniparcXRefView {
    if a.key == "type"@ {
        UniparcXRefView { db_type: a.value, ..x }
    } else if a.key == "id"@ {
        UniparcXRefView { db_id: a.value, ..x }
    } else if a.key == "version_i"@ {
        UniparcXRefView { version_i: a.value, ..x }
    } else if a.key == "active"@ {
        UniparcXRefView { active: a.value, ..x }
    } else if a.key == "version"@ {
        UniparcXRefView { version: a.value, ..x }
    } else if a.key == "created"@ {
        UniparcXRefView { created: a.value, ..x }
    } else if a.key == "last"@ {
        UniparcXRefView { last: a.value, ..x }
    } else {
        x
    }
}

/// The first `n` cross-reference attributes applied in order.
pub open spec fn spec_xref_attrs(
    x: UniparcXRefView,
    attrs: Seq<AttrView>,
    n: int,
) -> UniparcXRefView
    decreases n,
{
    if n <= 0 {
        x
    } else {
        spec_xref_attr(spec_xref_attrs(x, attrs, n - 1), attrs[n - 1])
    }
}

/// Folding attributes into a cross-reference never touches its identity:
/// the entry it belongs to and its index stay what the blank record had.
pub proof fn lemma_xref_attrs_keep_identity(x: UniparcXRefView, attrs: Seq<AttrView>, n: int)
    ensures
        spec_xref_attrs(x, attrs, n).xref_id == x.xref_id,
        spec_xref_attrs(x, attrs, n).uniparc_id == x.uniparc_id,
    decreases n,
{
    if n > 0 {
        lemma_xref_attrs_keep_identity(x, attrs, n - 1);
    }
}

/// What a cross-reference element does: build the record from the
/// attributes with the next candidate index, keep it exactly when its
/// active flag is the literal Y.
pub open spec fn spec_add_uniparc_xref(
    uniparc_id: Seq<char>,
    xrefs: Seq<UniparcXRefView>,
    attrs: Seq<AttrView>,
) -> (Seq<UniparcXRefView>, bool) {
    let x = spec_xref_attrs(
        spec_blank_xref(uniparc_id, (xrefs.len() + 1) as u64),
        attrs,
        attrs.len() as int,
    );
    if x.active == "Y"@ {
        (xrefs.push(x), true)
    } else {
        (xrefs, false)
    }
}

/// Builds a cross-reference from an element's attributes and keeps it if
/// and only if it is active; only a kept reference consumes an index.
pub fn add_uniparc_xref(
    uniparc_id: String,
    uniparc_xrefs: &mut Vec<UniparcXRef>,
    attributes: &Vec<Attr>,
) -> (keep: bool)
    requires
        old(uniparc_xrefs)@.len() < u64::MAX,
    ensures
        ({
            let (xs, k) = spec_add_uniparc_xref(
                uniparc_id@,
                old(uniparc_xrefs).deep_view(),
                attributes.deep_view(),
            );
            final(uniparc_xrefs).deep_view() == xs && keep == k
        }),
{
    let next_id = uniparc_xrefs.len() as u64 + 1;
    let mut xref = UniparcXRef {
        uniparc_id: uniparc_id,
        xref_id: next_id,
        db_type: String::new(),
        db_id: String::new(),
        version_i: String::new(),
        active: String::new(),
        version: String::new(),
        created: String::new(),
        last: String::new(),
    };
    proof {
        assert(xref@ =~= spec_blank_xref(xref.uniparc_id@, next_id));
    }
    let ghost init = xref@;
    let ghost dattrs = attributes.deep_view();
    let n = attributes.len();
    let mut i: usize = 0;
    while i < n
        invariant
            0 <= i <= n,
            n == dattrs.len(),
            dattrs == attributes.deep_view(),
            xref@ == spec_xref_attrs(init, dattrs, i as int),
        decreases n - i,
    {
        proof {
            assert(dattrs[i as int] == attributes@[i as int]@);
        }
        let a = &attributes[i];
        if a.key.as_str().eq("type") {
            xref.db_type = a.value.clone();
        } else if a.key.as_str().eq("id") {
            xref.db_id = a.value.clone();
        } else if a.key.as_str().eq("version_i") {
            xref.version_i = a.value.clone();
        } else if a.key.as_str().eq("active") {
            xref.active = a.value.clone();
        } else if a.key.as_str().eq("version") {
            xref.version = a.value.clone();
        } else if a.key.as_str().eq("created") {
            xref.created = a.value.clone();
        } else if a.key.as_str().eq("last") {
            xref.last = a.value.clone();
        }
        proof {
            assert(xref@ =~= spec_xref_attr(spec_xref_attrs(init, dattrs, i as int), dattrs[i as int]));
        }
        i += 1;
    }
    let keep = xref.active.as_str().eq("Y");
    if keep {
        let ghost prior = uniparc_xrefs.deep_view();
        uniparc_xrefs.push(xref);
        proof {
            assert(uniparc_xrefs.deep_view() =~= prior.push(spec_xref_attrs(init, dattrs, n as int)));
        }
    }
    keep
}

/// One sequence attribute applied to the record: a length must be a
/// decimal number, a checksum is stored, anything else changes nothing.
pub open spec fn spec_sequence_attr(u: UniparcView, a: AttrView) -> Result<
    UniparcView,
    FatalError,
> {
    if a.key == "length"@ {
        match spec_parse_u32(a.value) {
            Some(n) => Ok(UniparcView { sequence_length: n, ..u }),
            None => Err(FatalError::BadNumber),
        }
    } else if a.key == "checksum"@ {
        Ok(UniparcView { sequence_checksum: a.value, ..u })
    } else {
        Ok(u)
    }
}

/// The first `n` sequence attributes applied in order; the first failure
/// stops the fold.
pub open spec fn spec_sequence_attrs(u: UniparcView, attrs: Seq<AttrView>, n: int) -> Result<
    UniparcView,
    FatalError,
>
    decreases n,
{
    if n <= 0 {
        Ok(u)
    } else {
        match spec_sequence_attrs(u, attrs, n - 1) {
            Ok(u2) => spec_sequence_attr(u2, attrs[n - 1]),
            Err(e) => Err(e),
        }
    }
}

/// What a sequence element does to the record.
pub open spec fn spec_add_sequence(u: UniparcView, attrs: Seq<AttrView>) -> Result<
    UniparcView,
    FatalError,
> {
    spec_sequence_attrs(u, attrs, attrs.len() as int)
}

proof fn lemma_sequence_attrs_err(u: UniparcView, attrs: Seq<AttrView>, i: int, n: int)
    requires
        0 <= i <= n,
        spec_sequence_attrs(u, attrs, i) is Err,
    ensures
        spec_sequence_attrs(u, attrs, n) == spec_sequence_attrs(u, attrs, i),
    decreases n - i,
{
    if i < n {
        lemma_sequence_attrs_err(u, attrs, i, n - 1);
    }
}

/// Stores a sequence element's length and checksum attributes; a
/// non-numeric length is fatal.
pub fn add_sequence(uniparc: &mut Uniparc, attributes: &Vec<Attr>) -> (r: Result<(), FatalError>)
    ensures
        match spec_add_sequence(old(uniparc)@, attributes.deep_view()) {
            Ok(u2) => r == Ok::<(), FatalError>(()) && final(uniparc)@ == u2,
            Err(e) => r == Err::<(), FatalError>(e),
        },
{
    let ghost init = uniparc@;
    let ghost dattrs = attributes.deep_view();
    let n = attributes.len();
    let mut i: usize = 0;
    while i < n
        invariant
            0 <= i <= n,
            n == dattrs.len(),
            dattrs == attributes.deep_view(),
            init == old(uniparc)@,
            spec_sequence_attrs(init, dattrs, i as int) == Ok::<UniparcView, FatalError>(
                uniparc@,
            ),
        decreases n - i,
    {
        proof {
            assert(dattrs[i as int] == attributes@[i as int]@);
        }
        let a = &attributes[i];
        if a.key.as_str().eq("length") {
            match parse_u32(a.value.as_str()) {
                Some(len) => {
                    uniparc.sequence_length = len;
                },
                None => {
                    proof {
                        assert(spec_sequence_attrs(init, dattrs, i + 1) == Err::<
                            UniparcView,
                            FatalError,
                        >(FatalError::BadNumber));
                        lemma_sequence_attrs_err(init, dattrs, i + 1, n as int);
                    }
                    return Err(FatalError::BadNumber);
                },
            }
        } else if a.key.as_str().eq("checksum") {
            uniparc.sequence_checksum = a.value.clone();
        }
        proof {
            assert(uniparc@ =~= spec_sequence_attr(
                spec_sequence_attrs(init, dattrs, i as int).unwrap(),
                dattrs[i as int],
            ).unwrap());
        }
        i += 1;
    }
    Ok(())
}

/// One signature-match attribute applied to the (database, database_id)
/// pair; an unrecognized name changes nothing.
pub open spec fn spec_signature_attr(p: (Seq<char>, Seq<char>), a: AttrView) -> (
    Seq<char>,
    Seq<char>,
) {
    if a.key == "database"@ {
        (a.value, p.1)
    } else if a.key == "id"@ {
        (p.0, a.value)
    } else {
        p
    }
}

/// The first `n` signature-match attributes applied in order.
pub open spec fn spec_signature_attrs(
    p: (Seq<char>, Seq<char>),
    attrs: Seq<AttrView>,
    n: int,
) -> (Seq<char>, Seq<char>)
    decreases n,
{
    if n <= 0 {
        p
    } else {
        spec_signature_attr(spec_signature_attrs(p, attrs, n - 1), attrs[n - 1])
    }
}

/// What a signature-match element does: push a fresh domain match with the
/// database fields from the attributes, no annotation, and an empty span.
pub open spec fn spec_add_signature_match(
    uniparc_id: Seq<char>,
    domains: Seq<UniparcDomainView>,
    attrs: Seq<AttrView>,
) -> Seq<UniparcDomainView> {
    let p = spec_signature_attrs(
        (Seq::<char>::empty(), Seq::<char>::empty()),
        attrs,
        attrs.len() as int,
    );
    domains.push(
        UniparcDomainView {
            uniparc_id: uniparc_id,
            database: p.0,
            database_id: p.1,
            interpro_name: Seq::<char>::empty(),
            interpro_id: Seq::<char>::empty(),
            domain_start: 0,
            domain_end: 0,
        },
    )
}

/// Opens a domain match for a signature-match element.
pub fn add_signature_sequence_match(
    uniparc_id: String,
    uniparc_domains: &mut Vec<UniparcDomain>,
    attributes: &Vec<Attr>,
) -> (r: ())
    ensures
        final(uniparc_domains).deep_view() == spec_add_signature_match(
            uniparc_id@,
            old(uniparc_domains).deep_view(),
            attributes.deep_view(),
        ),
{
    let mut database = String::new();
    let mut database_id = String::new();
    let ghost dattrs = attributes.deep_view();
    let n = attributes.len();
    let mut i: usize = 0;
    while i < n
        invariant
            0 <= i <= n,
            n == dattrs.len(),
            dattrs == attributes.deep_view(),
            (database@, database_id@) == spec_signature_attrs(
                (Seq::<char>::empty(), Seq::<char>::empty()),
                dattrs,
                i as int,
            ),
        decreases n - i,
    {
        proof {
            assert(dattrs[i as int] == attributes@[i as int]@);
        }
        let a = &attributes[i];
        if a.key.as_str().eq("database") {
            database = a.value.clone();
        } else if a.key.as_str().eq("id") {
            database_id = a.value.clone();
        }
        i += 1;
    }
    let ghost prior = uniparc_domains.deep_view();
    uniparc_domains.push(
        UniparcDomain {
            uniparc_id: uniparc_id,
            database: database,
            database_id: database_id,
            interpro_name: String::new(),
            interpro_id: String::new(),
            domain_start: 0,
            domain_end: 0,
        },
    );
    proof {
        assert(uniparc_domains.deep_view() =~= spec_add_signature_match(
            uniparc_id@,
            prior,
            dattrs,
        ));
    }
}

/// One InterPro attribute applied to the (name, id) pair; an unrecognized
/// name changes nothing.
pub open spec fn spec_interpro_attr(p: (Seq<char>, Seq<char>), a: AttrView) -> (
    Seq<char>,
    Seq<char>,
) {
    if a.key == "name"@ {
        (a.value, p.1)
    } else if a.key == "id"@ {
        (p.0, a.value)
    } else {
        p
    }
}

/// The first `n` InterPro attributes applied in order.
pub open spec fn spec_interpro_attrs(
    p: (Seq<char>, Seq<char>),
    attrs: Seq<AttrView>,
    n: int,
) -> (Seq<char>, Seq<char>)
    decreases n,
{
    if n <= 0 {
        p
    } else {
        spec_interpro_attr(spec_interpro_attrs(p, attrs, n - 1), attrs[n - 1])
    }
}

/// What an InterPro annotation does: fill the still-unannotated domain
/// match on top of the list, exactly once, with nonempty fields.
pub open spec fn spec_add_interpro(
    domains: Seq<UniparcDomainView>,
    attrs: Seq<AttrView>,
) -> Result<Seq<UniparcDomainView>, FatalError> {
    let p = spec_interpro_attrs(
        (Seq::<char>::empty(), Seq::<char>::empty()),
        attrs,
        attrs.len() as int,
    );
    if domains.len() == 0 {
        Err(FatalError::NoOpenDomain)
    } else {
        let top = domains.last();
        if top.interpro_name.len() != 0 || top.interpro_id.len() != 0 {
            Err(FatalError::RepeatedAnnotation)
        } else if p.0.len() == 0 || p.1.len() == 0 {
            Err(FatalError::EmptyAnnotation)
        } else {
            Ok(
                domains.drop_last().push(
                    UniparcDomainView { interpro_name: p.0, interpro_id: p.1, ..top },
                ),
            )
        }
    }
}

/// Annotates the open domain match with its InterPro name and identifier;
/// annotating twice, annotating with empty fields, or annotating with no
/// open match is fatal.
pub fn add_interpro_annotation(
    uniparc_domains: &mut Vec<UniparcDomain>,
    attributes: &Vec<Attr>,
) -> (r: Result<(), FatalError>)
    ensures
        match spec_add_interpro(old(uniparc_domains).deep_view(), attributes.deep_view()) {
            Ok(ds) => r == Ok::<(), FatalError>(()) && final(uniparc_domains).deep_view() == ds,
            Err(e) => r == Err::<(), FatalError>(e),
        },
{
    let mut interpro_name = String::new();
    let mut interpro_id = String::new();
    let ghost dattrs = attributes.deep_view();
    let n = attributes.len();
    let mut i: usize = 0;
    while i < n
        invariant
            0 <= i <= n,
            n == dattrs.len(),
            dattrs == attributes.deep_view(),
            (interpro_name@, interpro_id@) == spec_interpro_attrs(
                (Seq::<char>::empty(), Seq::<char>::empty()),
                dattrs,
                i as int,
            ),
        decreases n - i,
    {
        proof {
            assert(dattrs[i as int] == attributes@[i as int]@);
        }
        let a = &attributes[i];
        if a.key.as_str().eq("name") {
            interpro_name = a.value.clone();
        } else if a.key.as_str().eq("id") {
            interpro_id = a.value.clone();
        }
        i += 1;
    }
    if uniparc_domains.len() == 0 {
        return Err(FatalError::NoOpenDomain);
    }
    let ghost prior = uniparc_domains.deep_view();
    let mut domain = uniparc_domains.pop().unwrap();
    proof {
        assert(domain@ == prior.last());
        assert(uniparc_domains.deep_view() =~= prior.drop_last());
    }
    if !domain.interpro_name.as_str().is_empty() || !domain.interpro_id.as_str().is_empty() {
        return Err(FatalError::RepeatedAnnotation);
    }
    if interpro_name.as_str().is_empty() || interpro_id.as_str().is_empty() {
        return Err(FatalError::EmptyAnnotation);
    }
    domain.interpro_name = interpro_name;
    domain.interpro_id = interpro_id;
    uniparc_domains.push(domain);
    proof {
        assert(uniparc_domains.deep_view() =~= spec_add_interpro(prior, dattrs).unwrap());
    }
    Ok(())
}

/// One location attribute applied to the (start, end) pair; start and end
/// must be decimal numbers, anything else changes nothing.
pub open spec fn spec_location_attr(p: (u32, u32), a: AttrView) -> Result<(u32, u32), FatalError> {
    if a.key == "start"@ {
        match spec_parse_u32(a.value) {
            Some(v) => Ok((v, p.1)),
            None => Err(FatalError::BadNumber),
        }
    } else if a.key == "end"@ {
        match spec_parse_u32(a.value) {
            Some(v) => Ok((p.0, v)),
            None => Err(FatalError::BadNumber),
        }
    } else {
        Ok(p)
    }
}

/// The first `n` location attributes applied in order; the first failure
/// stops the fold.
pub open spec fn spec_location_attrs(p: (u32, u32), attrs: Seq<AttrView>, n: int) -> Result<
    (u32, u32),
    FatalError,
>
    decreases n,
{
    if n <= 0 {
        Ok(p)
    } else {
        match spec_location_attrs(p, attrs, n - 1) {
            Ok(p2) => spec_location_attr(p2, attrs[n - 1]),
            Err(e) => Err(e),
        }
    }
}

proof fn lemma_location_attrs_err(p: (u32, u32), attrs: Seq<AttrView>, i: int, n: int)
    requires
        0 <= i <= n,
        spec_location_attrs(p, attrs, i) is Err,
    ensures
        spec_location_attrs(p, attrs, n) == spec_location_attrs(p, attrs, i),
    decreases n - i,
{
    if i < n {
        lemma_location_attrs_err(p, attrs, i, n - 1);
    }
}

/// A location pair written into the open domain match: the first pair
/// fills the still-empty span in place; every further pair leaves the
/// existing rows alone and appends a copy carrying the new span.
pub open spec fn spec_fill_or_clone(
    domains: Seq<UniparcDomainView>,
    start: u32,
    end: u32,
) -> Seq<UniparcDomainView>
    recommends
        domains.len() > 0,
{
    let top = domains.last();
    if top.domain_start == 0 && top.domain_end == 0 {
        domains.drop_last().push(UniparcDomainView { domain_start: start, domain_end: end, ..top })
    } else {
        domains.push(UniparcDomainView { domain_start: start, domain_end: end, ..top })
    }
}

/// What a location-span element does: parse the pair, then fill or clone;
/// a zero start or end, or no open match, is fatal.
pub open spec fn spec_add_locations(
    domains: Seq<UniparcDomainView>,
    attrs: Seq<AttrView>,
) -> Result<Seq<UniparcDomainView>, FatalError> {
    match spec_location_attrs((0u32, 0u32), attrs, attrs.len() as int) {
        Err(e) => Err(e),
        Ok(p) => {
            if domains.len() == 0 {
                Err(FatalError::NoOpenDomain)
            } else if p.0 == 0 || p.1 == 0 {
                Err(FatalError::ZeroSpan)
            } else {
                Ok(spec_fill_or_clone(domains, p.0, p.1))
            }
        },
    }
}

/// Writes one location pair into the open domain match, cloning it when
/// it already carries a span.
pub fn add_domain_definitions(
    uniparc_domains: &mut Vec<UniparcDomain>,
    attributes: &Vec<Attr>,
) -> (r: Result<(), FatalError>)
    ensures
        match spec_add_locations(old(uniparc_domains).deep_view(), attributes.deep_view()) {
            Ok(ds) => r == Ok::<(), FatalError>(()) && final(uniparc_domains).deep_view() == ds,
            Err(e) => r == Err::<(), FatalError>(e),
        },
{
    let mut domain_start: u32 = 0;
    let mut domain_end: u32 = 0;
    let ghost dattrs = attributes.deep_view();
    let n = attributes.len();
    let mut i: usize = 0;
    while i < n
        invariant
            0 <= i <= n,
            n == dattrs.len(),
            dattrs == attributes.deep_view(),
            spec_location_attrs((0u32, 0u32), dattrs, i as int) == Ok::<(u32, u32), FatalError>(
                (domain_start, domain_end),
            ),
        decreases n - i,
    {
        proof {
            assert(dattrs[i as int] == attributes@[i as int]@);
        }
        let a = &attributes[i];
        if a.key.as_str().eq("start") {
            match parse_u32(a.value.as_str()) {
                Some(v) => {
                    domain_start = v;
                },
                None => {
                    proof {
                        lemma_location_attrs_err((0u32, 0u32), dattrs, i + 1, n as int);
                    }
                    return Err(FatalError::BadNumber);
                },
            }
        } else if a.key.as_str().eq("end") {
            match parse_u32(a.value.as_str()) {
                Some(v) => {
                    domain_end = v;
                },
                None => {
                    proof {
                        lemma_location_attrs_err((0u32, 0u32), dattrs, i + 1, n as int);
                    }
                    return Err(FatalError::BadNumber);
                },
            }
        }
        i += 1;
    }
    if uniparc_domains.len() == 0 {
        return Err(FatalError::NoOpenDomain);
    }
    if domain_start == 0 || domain_end == 0 {
        return Err(FatalError::ZeroSpan);
    }
    let ghost prior = uniparc_domains.deep_view();
    let mut domain = uniparc_domains.pop().unwrap();
    proof {
        assert(domain@ == prior.last());
        assert(uniparc_domains.deep_view() =~= prior.drop_last());
    }
    if domain.domain_start == 0 && domain.domain_end == 0 {
        domain.domain_start = domain_start;
        domain.domain_end = domain_end;
        uniparc_domains.push(domain);
    } else {
        let mut clone = domain.duplicate();
        clone.domain_start = domain_start;
        clone.domain_end = domain_end;
        uniparc_domains.push(domain);
        uniparc_domains.push(clone);
    }
    proof {
        assert(uniparc_domains.deep_view() =~= spec_fill_or_clone(
            prior,
            domain_start,
            domain_end,
        ));
    }
    Ok(())
}

/// What a property element does when the current cross-reference was
/// kept: pick the category from the type attribute, prefix a chain value
/// with the current PDB cross-reference's identifier, intern the value in
/// the category's table, and record one junction row against the current
/// cross-reference index.
pub open spec fn spec_add_property(
    uniparc_id: Seq<char>,
    xrefs: Seq<UniparcXRefView>,
    interners: PropertiesView<Seq<Seq<char>>>,
    junctions: PropertiesView<Seq<UniparcPropertyView>>,
    attrs: Seq<AttrView>,
) -> Result<
    (PropertiesView<Seq<Seq<char>>>, PropertiesView<Seq<UniparcPropertyView>>),
    FatalError,
> {
    let tname = spec_find_attr(attrs, "type"@);
    if tname is None || spec_categorize(tname.unwrap()) is None {
        Err(FatalError::UnknownCategory)
    } else {
        let cat = spec_categorize(tname.unwrap()).unwrap();
        let rawv = spec_find_attr(attrs, "value"@);
        if rawv is None {
            Err(FatalError::MissingPropertyValue)
        } else if cat is PdbChain && (xrefs.len() == 0 || xrefs.last().db_type != "PDB"@) {
            Err(FatalError::ChainWithoutPdb)
        } else {
            let value = if cat is PdbChain {
                xrefs.last().db_id + rawv.unwrap()
            } else {
                rawv.unwrap()
            };
            let t2 = spec_intern(cat_get(interners, cat), value).0;
            let sur = spec_intern(cat_get(interners, cat), value).1;
            let row = UniparcPropertyView {
                uniparc_id: uniparc_id,
                xref_id: xrefs.len() as u64,
                property: spec_category_name(cat),
                surrogate: sur as u64,
            };
            Ok(
                (
                    cat_set(interners, cat, t2),
                    cat_set(junctions, cat, cat_get(junctions, cat).push(row)),
                ),
            )
        }
    }
}

/// Categorizes and interns one property element's value, and records the
/// junction row that attaches it to the current cross-reference.
pub fn add_property(
    uniparc_id: String,
    uniparc_xrefs: &Vec<UniparcXRef>,
    properties: &mut Properties<Interner>,
    junctions: &mut Properties<Vec<UniparcProperty>>,
    attributes: &Vec<Attr>,
) -> (r: Result<(), FatalError>)
    requires
        interners_wf(old(properties)@),
        uniparc_xrefs@.len() < u64::MAX,
    ensures
        match spec_add_property(
            uniparc_id@,
            uniparc_xrefs.deep_view(),
            old(properties)@,
            old(junctions)@,
            attributes.deep_view(),
        ) {
            Ok((ip, jp)) => r == Ok::<(), FatalError>(()) && final(properties)@ == ip
                && final(junctions)@ == jp,
            Err(e) => r == Err::<(), FatalError>(e) && final(properties)@ == old(properties)@
                && final(junctions)@ == old(junctions)@,
        },
        interners_distinct(final(properties)@),
{
    let tname = match find_attr(attributes, "type") {
        Some(t) => t,
        None => {
            return Err(FatalError::UnknownCategory);
        },
    };
    let cat = match categorize(tname.as_str()) {
        Some(c) => c,
        None => {
            return Err(FatalError::UnknownCategory);
        },
    };
    let rawv = match find_attr(attributes, "value") {
        Some(v) => v,
        None => {
            return Err(FatalError::MissingPropertyValue);
        },
    };
    let xref_id = uniparc_xrefs.len() as u64;
    let value: String;
    if cat == Category::PdbChain {
        if uniparc_xrefs.len() == 0 {
            return Err(FatalError::ChainWithoutPdb);
        }
        let lastx = &uniparc_xrefs[uniparc_xrefs.len() - 1];
        proof {
            assert(lastx@ == uniparc_xrefs.deep_view().last());
        }
        if !lastx.db_type.as_str().eq("PDB") {
            return Err(FatalError::ChainWithoutPdb);
        }
        value = lastx.db_id.clone().concat(rawv.as_str());
    } else {
        value = rawv;
    }
    let ghost old_tables = properties@;
    let sur = properties.intern(cat, value);
    proof {
        let t = cat_get(old_tables, cat);
        if t.contains(value@) {
            let w = choose|k: int| 0 <= k < t.len() && t[k] == value@;
            assert(1 <= spec_intern(t, value@).1 <= t.len());
        }
        assert(interners_distinct(properties@)) by {
            assert forall|c: Category| #![trigger cat_get(properties@, c)] crate::properties::distinct(
                cat_get(properties@, c),
            ) by {
                if c == cat {
                    crate::properties::lemma_intern_distinct(t, value@);
                    assert(cat_get(properties@, c) == spec_intern(t, value@).0);
                } else {
                    assert(cat_get(properties@, c) == cat_get(old_tables, c));
                }
            }
        }
    }
    junctions.push_row(
        cat,
        UniparcProperty {
            uniparc_id: uniparc_id,
            xref_id: xref_id,
            property: String::from_str(category_name(cat)),
            surrogate: sur,
        },
    );
    Ok(())
}

/// The chain category stores the current PDB cross-reference's identifier
/// prefixed to the raw attribute value, and demands that the current kept
/// cross-reference is a PDB reference: under any other cross-reference,
/// or none, a chain property is the fatal chain violation.
pub proof fn lemma_chain_category(
    uniparc_id: Seq<char>,
    xrefs: Seq<UniparcXRefView>,
    interners: PropertiesView<Seq<Seq<char>>>,
    junctions: PropertiesView<Seq<UniparcPropertyView>>,
    attrs: Seq<AttrView>,
)
    requires
        spec_find_attr(attrs, "type"@) == Some("chain"@),
        spec_find_attr(attrs, "value"@) is Some,
    ensures
        xrefs.len() == 0 || xrefs.last().db_type != "PDB"@ ==> spec_add_property(
            uniparc_id,
            xrefs,
            interners,
            junctions,
            attrs,
        ) == Err::<
            (PropertiesView<Seq<Seq<char>>>, PropertiesView<Seq<UniparcPropertyView>>),
            FatalError,
        >(FatalError::ChainWithoutPdb),
        xrefs.len() > 0 && xrefs.last().db_type == "PDB"@ ==> ({
            let stored = xrefs.last().db_id + spec_find_attr(attrs, "value"@).unwrap();
            let interned = spec_intern(cat_get(interners, Category::PdbChain), stored);
            spec_add_property(uniparc_id, xrefs, interners, junctions, attrs) matches Ok(u)
                && u.0 == cat_set(interners, Category::PdbChain, interned.0) && cat_get(
                u.1,
                Category::PdbChain,
            ) == cat_get(junctions, Category::PdbChain).push(
                UniparcPropertyView {
                    uniparc_id: uniparc_id,
                    xref_id: xrefs.len() as u64,
                    property: spec_category_name(Category::PdbChain),
                    surrogate: interned.1 as u64,
                },
            )
        }),
{
    crate::properties::lemma_categorize_chain();
}

/// Referential integrity of the junction rows: every row's surrogate is
/// one the interning table of its category has handed out — so the
/// dictionary row it references exists — and its cross-reference index
/// never exceeds the number of kept cross-references.
pub open spec fn junction_rows_resolve(
    junctions: PropertiesView<Seq<UniparcPropertyView>>,
    interners: PropertiesView<Seq<Seq<char>>>,
    nxrefs: int,
) -> bool {
    forall|c: Category, j: int|
        #![trigger cat_get(junctions, c)[j]]
        0 <= j < cat_get(junctions, c).len() ==> 1 <= cat_get(junctions, c)[j].surrogate
            && cat_get(junctions, c)[j].surrogate as int <= cat_get(interners, c).len() && cat_get(
            junctions,
            c,
        )[j].xref_id as int <= nxrefs
}

/// A property event keeps the junction rows resolving: old rows still
/// point into the same or a grown table, and the new row resolves by
/// construction.
pub proof fn lemma_add_property_keeps_resolution(
    uniparc_id: Seq<char>,
    xrefs: Seq<UniparcXRefView>,
    interners: PropertiesView<Seq<Seq<char>>>,
    junctions: PropertiesView<Seq<UniparcPropertyView>>,
    attrs: Seq<AttrView>,
)
    requires
        junction_rows_resolve(junctions, interners, xrefs.len() as int),
        crate::properties::interners_room(interners),
        xrefs.len() < u64::MAX,
    ensures
        spec_add_property(uniparc_id, xrefs, interners, junctions, attrs) matches Ok(u)
            ==> junction_rows_resolve(u.1, u.0, xrefs.len() as int),
{
    if spec_add_property(uniparc_id, xrefs, interners, junctions, attrs) is Ok {
        let cat = spec_categorize(spec_find_attr(attrs, "type"@).unwrap()).unwrap();
        let rawv = spec_find_attr(attrs, "value"@).unwrap();
        let value = if cat is PdbChain {
            xrefs.last().db_id + rawv
        } else {
            rawv
        };
        let t = cat_get(interners, cat);
        crate::properties::lemma_spec_intern_bounds(t, value);
        let sur = spec_intern(t, value).1;
        let row = UniparcPropertyView {
            uniparc_id: uniparc_id,
            xref_id: xrefs.len() as u64,
            property: spec_category_name(cat),
            surrogate: sur as u64,
        };
        let u = spec_add_property(uniparc_id, xrefs, interners, junctions, attrs).unwrap();
        assert forall|c: Category, j: int|
            #![trigger cat_get(u.1, c)[j]]
            0 <= j < cat_get(u.1, c).len() implies 1 <= cat_get(u.1, c)[j].surrogate && cat_get(
            u.1,
            c,
        )[j].surrogate as int <= cat_get(u.0, c).len() && cat_get(u.1, c)[j].xref_id as int
            <= xrefs.len() as int by {
            if c == cat {
                assert(cat_get(u.1, c) == cat_get(junctions, cat).push(row));
                assert(cat_get(u.0, c) == spec_intern(t, value).0);
                if j < cat_get(junctions, cat).len() {
                    assert(cat_get(u.1, c)[j] == cat_get(junctions, c)[j]);
                } else {
                    assert(cat_get(u.1, c)[j] == row);
                }
            } else {
                assert(cat_get(u.1, c) == cat_get(junctions, c));
                assert(cat_get(u.0, c) == cat_get(interners, c));
            }
        }
    }
}

/// Junction-row resolution only cares about a lower bound on the kept
/// cross-references, so keeping one more preserves it.
pub proof fn lemma_resolution_monotone(
    junctions: PropertiesView<Seq<UniparcPropertyView>>,
    interners: PropertiesView<Seq<Seq<char>>>,
    nxrefs: int,
    more: int,
)
    requires
        junction_rows_resolve(junctions, interners, nxrefs),
        nxrefs <= more,
    ensures
        junction_rows_resolve(junctions, interners, more),
{
}

/// Location pairs applied to the domain list, first to last.
pub open spec fn spec_apply_spans(
    ds: Seq<UniparcDomainView>,
    pairs: Seq<(u32, u32)>,
) -> Seq<UniparcDomainView>
    decreases pairs.len(),
{
    if pairs.len() == 0 {
        ds
    } else {
        spec_apply_spans(spec_fill_or_clone(ds, pairs[0].0, pairs[0].1), pairs.drop_first())
    }
}

/// The rows a signature match with the given location pairs flushes to:
/// one per pair, sharing every field of the match but the span.
pub open spec fn spec_span_rows(
    m: UniparcDomainView,
    pairs: Seq<(u32, u32)>,
) -> Seq<UniparcDomainView> {
    Seq::new(
        pairs.len(),
        |j: int| UniparcDomainView { domain_start: pairs[j].0, domain_end: pairs[j].1, ..m },
    )
}

proof fn lemma_apply_spans_carried(
    base: Seq<UniparcDomainView>,
    m: UniparcDomainView,
    top: UniparcDomainView,
    pairs: Seq<(u32, u32)>,
)
    requires
        top.domain_start != 0 || top.domain_end != 0,
        top.uniparc_id == m.uniparc_id,
        top.database == m.database,
        top.database_id == m.database_id,
        top.interpro_name == m.interpro_name,
        top.interpro_id == m.interpro_id,
        forall|j: int| 0 <= j < pairs.len() ==> (#[trigger] pairs[j]).0 != 0 && pairs[j].1 != 0,
    ensures
        spec_apply_spans(base.push(top), pairs) == base.push(top) + spec_span_rows(m, pairs),
    decreases pairs.len(),
{
    if pairs.len() == 0 {
        assert(base.push(top) + spec_span_rows(m, pairs) =~= base.push(top));
    } else {
        let first = UniparcDomainView { domain_start: pairs[0].0, domain_end: pairs[0].1, ..m };
        assert(spec_fill_or_clone(base.push(top), pairs[0].0, pairs[0].1) =~= base.push(top).push(
            first,
        ));
        lemma_apply_spans_carried(base.push(top), m, first, pairs.drop_first());
        assert(base.push(top) + spec_span_rows(m, pairs) =~= base.push(top).push(first)
            + spec_span_rows(m, pairs.drop_first()));
    }
}

/// The multiplicity rule: a fresh signature match that receives `k`
/// location pairs (`k` at least one, all nonzero) flushes as exactly `k`
/// domain rows appended after the earlier rows, all sharing every field of
/// the match except the span; row `j` carries pair `j`, so the first row's
/// span is the first pair seen.
pub proof fn lemma_domain_multiplicity(
    base: Seq<UniparcDomainView>,
    m: UniparcDomainView,
    pairs: Seq<(u32, u32)>,
)
    requires
        m.domain_start == 0,
        m.domain_end == 0,
        pairs.len() > 0,
        forall|j: int| 0 <= j < pairs.len() ==> (#[trigger] pairs[j]).0 != 0 && pairs[j].1 != 0,
    ensures
        spec_apply_spans(base.push(m), pairs) == base + spec_span_rows(m, pairs),
        spec_apply_spans(base.push(m), pairs).len() == base.len() + pairs.len(),
        spec_span_rows(m, pairs)[0].domain_start == pairs[0].0,
        spec_span_rows(m, pairs)[0].domain_end == pairs[0].1,
{
    let first = UniparcDomainView { domain_start: pairs[0].0, domain_end: pairs[0].1, ..m };
    assert(spec_fill_or_clone(base.push(m), pairs[0].0, pairs[0].1) =~= base.push(first));
    lemma_apply_spans_carried(base, m, first, pairs.drop_first());
    assert(base + spec_span_rows(m, pairs) =~= base.push(first) + spec_span_rows(
        m,
        pairs.drop_first(),
    ));
}

} // verus!
