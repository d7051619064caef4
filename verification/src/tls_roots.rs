//! Loading PEM-encoded CA bundles into a rustls [`RootCertStore`].
//!
//! The store that a load returns trusts the certificates of the bundle and no
//! others: neither the webpki roots nor the platform's are merged in. A bundle
//! without certificates is refused, since an empty trust store would fail every
//! handshake in silence.

use rustls::RootCertStore;
use rustls_pki_types::pem::{PemObject, SliceIter};
use rustls_pki_types::CertificateDer;
use vstd::prelude::*;

pub mod laws;

verus! {

/// `rustls::RootCertStore`, the set of trusted roots.
#[verifier::external_type_specification]
#[verifier::external_body]
pub struct ExRootCertStore(RootCertStore);

/// `rustls_pki_types::CertificateDer`, a certificate in DER.
#[verifier::external_type_specification]
#[verifier::external_body]
pub struct ExCertificateDer<'a>(CertificateDer<'a>);

/// `rustls_pki_types::pem::SliceIter`, the iterator over the sections of a PEM
/// stream.
#[verifier::external_type_specification]
#[verifier::external_body]
#[verifier::reject_recursive_types(T)]
pub struct ExSliceIter<'a, T>(SliceIter<'a, T>);

/// `std::io::Error`, carried from a failed read to the caller.
#[verifier::external_type_specification]
#[verifier::external_body]
pub struct ExIoError(std::io::Error);

/// Errors produced when loading a CA bundle.
#[derive(Debug)]
pub enum CaBundleError {
    /// The PEM file could not be read.
    Io(std::io::Error),
    /// A section of the PEM stream failed to parse.
    Parse(String),
    /// The store refused a certificate.
    Add(String),
    /// The input held no certificates.
    Empty,
}

impl From<std::io::Error> for CaBundleError {
    fn from(e: std::io::Error) -> (res: Self) {
        CaBundleError::Io(e)
    }
}

impl vstd::std_specs::convert::FromSpecImpl<std::io::Error> for CaBundleError {
    open spec fn obeys_from_spec() -> bool {
        true
    }

    open spec fn from_spec(e: std::io::Error) -> Self {
        CaBundleError::Io(e)
    }
}

/// The trust anchors in a store, in the order in which they were added: the
/// subject, the public key info and the name constraints of each, in DER.
pub uninterp spec fn anchors(store: RootCertStore) -> Seq<
    (Seq<u8>, Seq<u8>, Option<Seq<u8>>),
>;

/// The trust anchor that `RootCertStore::add` takes from a certificate in DER,
/// or the text of the error with which it refuses the certificate.
pub uninterp spec fn trust_anchor(der: Seq<u8>) -> Result<
    (Seq<u8>, Seq<u8>, Option<Seq<u8>>),
    Seq<char>,
>;

/// What `CertificateDer::pem_slice_iter` yields for `pem`: for each certificate
/// section its DER bytes, for each malformed section the text of the error.
pub uninterp spec fn pem_sections(pem: Seq<u8>) -> Seq<Result<Seq<u8>, Seq<char>>>;

/// What an iterator over PEM sections has still to yield.
pub uninterp spec fn pending(iter: SliceIter<'_, CertificateDer<'_>>) -> Seq<
    Result<Seq<u8>, Seq<char>>,
>;

/// A line of `pem` starts with `-----BEGIN `, the marker that opens a PEM
/// section. A line starts at the first byte and after each line feed or carriage
/// return.
pub open spec fn has_begin_line(pem: Seq<u8>) -> bool {
    exists|i: int|
        #![trigger pem[i]]
        {
            &&& 0 <= i && i + 11 <= pem.len()
            &&& i == 0 || pem[i - 1] == 10 || pem[i - 1] == 13
            &&& pem.subrange(i, i + 11) == seq![45u8, 45, 45, 45, 45, 66, 69, 71, 73, 78, 32]
        }
}

/// The view of what became of one section.
pub open spec fn section_view(section: Result<Vec<u8>, String>) -> Result<Seq<u8>, Seq<char>> {
    match section {
        Ok(der) => Ok(der@),
        Err(text) => Err(text@),
    }
}

/// `RootCertStore::empty`: a store without anchors.
#[verifier::external_body]
fn empty_store() -> (store: RootCertStore)
    ensures
        anchors(store) == Seq::<(Seq<u8>, Seq<u8>, Option<Seq<u8>>)>::empty(),
{
    RootCertStore::empty()
}

/// `RootCertStore::add`: appends the trust anchor of the certificate `der`, or
/// leaves the store as it was and returns the error's text. Which of the two
/// happens, and the anchor and the text, depend on `der` alone.
#[verifier::external_body]
fn add_certificate(store: &mut RootCertStore, der: Vec<u8>) -> (res: Result<(), String>)
    ensures
        match trust_anchor(der@) {
            Ok(anchor) => res is Ok && anchors(*final(store)) == anchors(*old(store)).push(anchor),
            Err(text) => res is Err && res->Err_0@ == text && anchors(*final(store)) == anchors(
                *old(store),
            ),
        },
{
    store.add(CertificateDer::from(der)).map_err(|e| e.to_string())
}

/// `CertificateDer::pem_slice_iter`: an iterator over the certificate sections
/// of `pem`. Input in which no line opens a section yields nothing.
#[verifier::external_body]
fn open_sections<'a>(pem: &'a [u8]) -> (iter: SliceIter<'a, CertificateDer<'static>>)
    ensures
        pending(iter) == pem_sections(pem@),
        !has_begin_line(pem@) ==> pending(iter).len() == 0,
{
    CertificateDer::pem_slice_iter(pem)
}

/// `SliceIter::next`: the next section, or `None` where none is left. Each item
/// is handed out once and in order; there are finitely many, since each takes up
/// some of the input, and the iterator stays at its end.
#[verifier::external_body]
fn next_section(iter: &mut SliceIter<'_, CertificateDer<'static>>) -> (res: Option<
    Result<Vec<u8>, String>,
>)
    ensures
        pending(*old(iter)).len() == 0 ==> res is None && pending(*final(iter)) == pending(
            *old(iter),
        ),
        pending(*old(iter)).len() > 0 ==> res is Some && section_view(res->Some_0) == pending(
            *old(iter),
        )[0] && pending(*final(iter)) == pending(*old(iter)).drop_first(),
{
    iter.next().map(|item| item.map(|der| der.to_vec()).map_err(|e| e.to_string()))
}

/// The views of all sections, in order.
pub open spec fn section_views(sections: Seq<Result<Vec<u8>, String>>) -> Seq<
    Result<Seq<u8>, Seq<char>>,
> {
    sections.map_values(|s: Result<Vec<u8>, String>| section_view(s))
}

/// The section is a certificate that the store takes.
pub open spec fn is_trusted(section: Result<Seq<u8>, Seq<char>>) -> bool {
    section is Ok && trust_anchor(section->Ok_0) is Ok
}

/// Section `i` is the first one that is malformed or that the store refuses.
pub open spec fn is_first_fault(sections: Seq<Result<Seq<u8>, Seq<char>>>, i: int) -> bool {
    &&& 0 <= i < sections.len()
    &&& !is_trusted(sections[i])
    &&& forall|j: int| 0 <= j < i ==> is_trusted(#[trigger] sections[j])
}

/// The anchors of the certificates in `sections`, one for each, in order.
pub open spec fn anchors_of(sections: Seq<Result<Seq<u8>, Seq<char>>>) -> Seq<
    (Seq<u8>, Seq<u8>, Option<Seq<u8>>),
> {
    sections.map_values(|s: Result<Seq<u8>, Seq<char>>| trust_anchor(s->Ok_0)->Ok_0)
}

/// `res` is what a bundle with the given sections loads to: the anchors of the
/// sections and no others, the first fault, or the refusal of an empty bundle.
pub open spec fn loads_to(
    sections: Seq<Result<Seq<u8>, Seq<char>>>,
    res: Result<RootCertStore, CaBundleError>,
) -> bool {
    match res {
        Ok(store) => {
            &&& sections.len() > 0
            &&& forall|i: int| 0 <= i < sections.len() ==> is_trusted(#[trigger] sections[i])
            &&& anchors(store) == anchors_of(sections)
        },
        Err(CaBundleError::Parse(text)) => exists|i: int|
            #[trigger] is_first_fault(sections, i) && sections[i] == Err::<Seq<u8>, _>(text@),
        Err(CaBundleError::Add(text)) => exists|i: int|
            #[trigger] is_first_fault(sections, i) && sections[i] is Ok && trust_anchor(
                sections[i]->Ok_0,
            ) == Err::<(Seq<u8>, Seq<u8>, Option<Seq<u8>>), _>(text@),
        Err(CaBundleError::Empty) => sections.len() == 0,
        Err(CaBundleError::Io(_)) => false,
    }
}

/// The certificate sections of `pem`, in order.
fn read_sections(pem: &[u8]) -> (sections: Vec<Result<Vec<u8>, String>>)
    ensures
        section_views(sections@) == pem_sections(pem@),
        !has_begin_line(pem@) ==> sections@.len() == 0,
{
    let mut iter = open_sections(pem);
    let mut sections: Vec<Result<Vec<u8>, String>> = Vec::new();
    assert(section_views(sections@) + pending(iter) =~= pem_sections(pem@));
    loop
        invariant
            section_views(sections@) + pending(iter) == pem_sections(pem@),
            !has_begin_line(pem@) ==> pem_sections(pem@).len() == 0,
        ensures
            section_views(sections@) == pem_sections(pem@),
        decreases pending(iter).len(),
    {
        let ghost before = pending(iter);
        match next_section(&mut iter) {
            Some(section) => {
                let ghost taken = section_views(sections@);
                sections.push(section);
                assert(section_views(sections@) =~= taken.push(before[0]));
                assert(section_views(sections@) + pending(iter) =~= taken + before);
            },
            None => {
                assert(section_views(sections@) + before =~= section_views(sections@));
                break;
            },
        }
    }
    sections
}

/// What the store's answer to one certificate means for the load.
pub fn addition_outcome(added: Result<(), String>) -> (res: Result<(), CaBundleError>)
    ensures
        match added {
            Ok(()) => res is Ok,
            Err(text) => res == Err::<(), _>(CaBundleError::Add(text)),
        },
{
    match added {
        Ok(()) => Ok(()),
        Err(text) => Err(CaBundleError::Add(text)),
    }
}

/// A store with the certificates of `sections` and no others.
///
/// Stops at the first section that is malformed or whose certificate the store
/// refuses, and refuses a bundle without sections.
pub fn roots_from_sections(sections: Vec<Result<Vec<u8>, String>>) -> (res: Result<
    RootCertStore,
    CaBundleError,
>)
    ensures
        loads_to(section_views(sections@), res),
{
    let mut roots = empty_store();
    let mut added = false;
    let ghost views = section_views(sections@);
    assert(anchors_of(views.take(0)) =~= Seq::empty());
    for section in it: sections
        invariant
            it.seq() == sections@,
            views == section_views(sections@),
            forall|j: int| 0 <= j < it.index() ==> is_trusted(#[trigger] views[j]),
            anchors(roots) == anchors_of(views.take(it.index())),
            added == (it.index() > 0),
    {
        let ghost i = it.index();
        assert(views[i] == section_view(section));
        match section {
            Ok(der) => {
                let answer = add_certificate(&mut roots, der);
                proof {
                    if answer is Err {
                        assert(is_first_fault(views, i));
                    }
                    assert(anchors_of(views.take(i + 1)) =~= anchors_of(views.take(i)).push(
                        trust_anchor(views[i]->Ok_0)->Ok_0,
                    ));
                }
                match addition_outcome(answer) {
                    Ok(()) => {},
                    Err(e) => {
                        return Err(e);
                    },
                }
            },
            Err(text) => {
                assert(is_first_fault(views, i));
                return Err(CaBundleError::Parse(text));
            },
        }
        added = true;
    }
    assert(views.take(views.len() as int) =~= views);
    if !added {
        return Err(CaBundleError::Empty);
    }
    Ok(roots)
}

/// Loads a PEM-encoded CA bundle into a fresh [`RootCertStore`].
///
/// * [`CaBundleError::Parse`]: a section is malformed.
/// * [`CaBundleError::Add`]: the store refuses a certificate.
/// * [`CaBundleError::Empty`]: the input holds no certificates, as is the case
///   for input that is not PEM.
pub fn load_ca_bundle(pem_bytes: &[u8]) -> (res: Result<RootCertStore, CaBundleError>)
    ensures
        loads_to(pem_sections(pem_bytes@), res),
        !has_begin_line(pem_bytes@) ==> res == Err::<RootCertStore, _>(CaBundleError::Empty),
{
    let sections = read_sections(pem_bytes);
    roots_from_sections(sections)
}

/// Loads the CA bundle that was read from disk, or hands on the error with which
/// the read failed.
pub fn load_ca_bundle_from_read(read: Result<Vec<u8>, std::io::Error>) -> (res: Result<
    RootCertStore,
    CaBundleError,
>)
    ensures
        match read {
            Ok(bytes) => {
                &&& loads_to(pem_sections(bytes@), res)
                &&& !has_begin_line(bytes@) ==> res == Err::<RootCertStore, _>(CaBundleError::Empty)
            },
            Err(e) => res == Err::<RootCertStore, _>(CaBundleError::Io(e)),
        },
{
    match read {
        Ok(bytes) => load_ca_bundle(bytes.as_slice()),
        Err(e) => Err(CaBundleError::from(e)),
    }
}

/// Strict pinning: a store that a load returns holds one anchor for each
/// certificate of the bundle, in the bundle's order, and at least one; it holds
/// no anchor that the bundle does not.
pub proof fn law_only_the_bundle_is_trusted(
    sections: Seq<Result<Seq<u8>, Seq<char>>>,
    store: RootCertStore,
)
    requires
        loads_to(sections, Ok(store)),
    ensures
        anchors(store).len() == sections.len(),
        anchors(store).len() > 0,
        forall|i: int|
            0 <= i < sections.len() ==> (#[trigger] sections[i]) is Ok && trust_anchor(
                sections[i]->Ok_0,
            ) == Ok::<_, Seq<char>>(anchors(store)[i]),
{
    assert forall|i: int| 0 <= i < sections.len() implies (#[trigger] sections[i]) is Ok
        && trust_anchor(sections[i]->Ok_0) == Ok::<_, Seq<char>>(anchors(store)[i]) by {
        assert(is_trusted(sections[i]));
    }
}

/// Success is owed exactly to the bundles that have a section and no fault:
/// every other bundle is empty or has a first fault, and never two of the three
/// hold.
pub proof fn law_bundle_is_sound_empty_or_faulty(sections: Seq<Result<Seq<u8>, Seq<char>>>)
    ensures
        ({
            let sound = sections.len() > 0 && forall|i: int|
                0 <= i < sections.len() ==> is_trusted(#[trigger] sections[i]);
            let faulty = exists|i: int| is_first_fault(sections, i);
            &&& sound || sections.len() == 0 || faulty
            &&& sound ==> !faulty
            &&& sections.len() == 0 ==> !faulty
        }),
{
    if exists|i: int| 0 <= i < sections.len() && !is_trusted(#[trigger] sections[i]) {
        let i = choose|i: int| 0 <= i < sections.len() && !is_trusted(#[trigger] sections[i]);
        lemma_first_fault(sections, i);
    }
}

/// A section with a fault has a first one at or before it.
proof fn lemma_first_fault(sections: Seq<Result<Seq<u8>, Seq<char>>>, i: int)
    requires
        0 <= i < sections.len(),
        !is_trusted(sections[i]),
    ensures
        exists|k: int| is_first_fault(sections, k),
    decreases i,
{
    if exists|j: int| 0 <= j < i && !is_trusted(#[trigger] sections[j]) {
        let j = choose|j: int| 0 <= j < i && !is_trusted(#[trigger] sections[j]);
        lemma_first_fault(sections, j);
    } else {
        assert(is_first_fault(sections, i));
    }
}

/// The outcome of a load depends on the sections alone: two loads of the same
/// sections both succeed with the same anchors or both fail with the same error
/// and the same text.
pub proof fn law_outcome_is_determined(
    sections: Seq<Result<Seq<u8>, Seq<char>>>,
    a: Result<RootCertStore, CaBundleError>,
    b: Result<RootCertStore, CaBundleError>,
)
    requires
        loads_to(sections, a),
        loads_to(sections, b),
    ensures
        match a {
            Ok(store) => b is Ok && anchors(b->Ok_0) == anchors(store),
            Err(CaBundleError::Parse(text)) => b matches Err(CaBundleError::Parse(other))
                && other@ == text@,
            Err(CaBundleError::Add(text)) => b matches Err(CaBundleError::Add(other)) && other@
                == text@,
            Err(CaBundleError::Empty) => b == Err::<RootCertStore, _>(CaBundleError::Empty),
            Err(CaBundleError::Io(_)) => false,
        },
{
    assert forall|i: int, j: int|
        #[trigger] is_first_fault(sections, i) && #[trigger] is_first_fault(
            sections,
            j,
        ) implies i == j by {
        if i < j {
            assert(is_trusted(sections[i]));
        }
        if j < i {
            assert(is_trusted(sections[j]));
        }
    }
}

} // verus!
