//! What loading a CA bundle does, section by section.

use rustls::RootCertStore;
use vstd::prelude::*;

use crate::tls_roots;
use crate::tls_roots::CaBundleError;

verus! {

/// What becomes of a bundle with the given sections. It loads exactly when it has
/// a section and every section, however many there are, is a certificate that the
/// store takes; the store then holds the anchor of each, in order. It is refused
/// as empty exactly when it has no section. In every other case the first section
/// that is malformed or whose certificate is refused gives the error and its text.
pub proof fn law_load_outcome(
    sections: Seq<Result<Seq<u8>, Seq<char>>>,
    res: Result<RootCertStore, CaBundleError>,
)
    requires
        tls_roots::loads_to(sections, res),
    ensures
        res is Ok <==> {
            &&& sections.len() > 0
            &&& forall|i: int|
                0 <= i < sections.len() ==> (#[trigger] sections[i]) is Ok
                    && tls_roots::trust_anchor(sections[i]->Ok_0) is Ok
        },
        res == Err::<RootCertStore, _>(CaBundleError::Empty) <==> sections.len() == 0,
        res matches Ok(store) ==> {
            &&& tls_roots::anchors(store).len() == sections.len()
            &&& forall|i: int|
                0 <= i < sections.len() ==> tls_roots::trust_anchor((#[trigger] sections[i])->Ok_0)
                    == Ok::<_, Seq<char>>(tls_roots::anchors(store)[i])
        },
        forall|i: int|
            0 <= i < sections.len() && (#[trigger] sections[i]) is Err && (forall|j: int|
                0 <= j < i ==> (#[trigger] sections[j]) is Ok && tls_roots::trust_anchor(
                    sections[j]->Ok_0,
                ) is Ok) ==> (res matches Err(CaBundleError::Parse(text)) && text@
                == sections[i]->Err_0),
        forall|i: int|
            0 <= i < sections.len() && (#[trigger] sections[i]) is Ok && tls_roots::trust_anchor(
                sections[i]->Ok_0,
            ) is Err && (forall|j: int|
                0 <= j < i ==> (#[trigger] sections[j]) is Ok && tls_roots::trust_anchor(
                    sections[j]->Ok_0,
                ) is Ok) ==> (res matches Err(CaBundleError::Add(text)) && tls_roots::trust_anchor(
                sections[i]->Ok_0,
            ) == Err::<(Seq<u8>, Seq<u8>, Option<Seq<u8>>), _>(text@)),
        !(res matches Err(CaBundleError::Io(_))),
{
    tls_roots::law_bundle_is_sound_empty_or_faulty(sections);
    assert forall|i: int| 0 <= i < sections.len() implies (tls_roots::is_trusted(
        #[trigger] sections[i],
    ) <==> sections[i] is Ok && tls_roots::trust_anchor(sections[i]->Ok_0) is Ok) by {}
    if let Ok(store) = res {
        tls_roots::law_only_the_bundle_is_trusted(sections, store);
    }
    assert forall|i: int, k: int|
        #[trigger] tls_roots::is_first_fault(sections, i) && #[trigger] tls_roots::is_first_fault(
            sections,
            k,
        ) implies i == k by {
        if i < k {
            assert(tls_roots::is_trusted(sections[i]));
        }
        if k < i {
            assert(tls_roots::is_trusted(sections[k]));
        }
    }
    assert forall|i: int|
        0 <= i < sections.len() && !tls_roots::is_trusted(#[trigger] sections[i]) && (forall|j: int|
            0 <= j < i ==> (#[trigger] sections[j]) is Ok && tls_roots::trust_anchor(
                sections[j]->Ok_0,
            ) is Ok) implies tls_roots::is_first_fault(sections, i) by {}
}

/// Loading from sections, stated of the call: see [`law_load_outcome`].
pub proof fn law_roots_from_sections(
    sections: Vec<Result<Vec<u8>, String>>,
    res: Result<RootCertStore, CaBundleError>,
)
    requires
        call_ensures(tls_roots::roots_from_sections, (sections,), res),
    ensures
        res is Ok <==> {
            &&& sections@.len() > 0
            &&& forall|i: int|
                0 <= i < sections@.len() ==> (#[trigger] sections@[i]) is Ok
                    && tls_roots::trust_anchor(sections@[i]->Ok_0@) is Ok
        },
        res == Err::<RootCertStore, _>(CaBundleError::Empty) <==> sections@.len() == 0,
        res matches Ok(store) ==> {
            &&& tls_roots::anchors(store).len() == sections@.len()
            &&& forall|i: int|
                0 <= i < sections@.len() ==> tls_roots::trust_anchor(
                    (#[trigger] sections@[i])->Ok_0@,
                )
                    == Ok::<_, Seq<char>>(tls_roots::anchors(store)[i])
        },
        forall|i: int|
            0 <= i < sections@.len() && (#[trigger] sections@[i]) is Err && (forall|j: int|
                0 <= j < i ==> (#[trigger] sections@[j]) is Ok && tls_roots::trust_anchor(
                    sections@[j]->Ok_0@,
                ) is Ok) ==> (res matches Err(CaBundleError::Parse(text)) && text@
                == sections@[i]->Err_0@),
        forall|i: int|
            0 <= i < sections@.len() && (#[trigger] sections@[i]) is Ok && tls_roots::trust_anchor(
                sections@[i]->Ok_0@,
            ) is Err && (forall|j: int|
                0 <= j < i ==> (#[trigger] sections@[j]) is Ok && tls_roots::trust_anchor(
                    sections@[j]->Ok_0@,
                ) is Ok) ==> (res matches Err(CaBundleError::Add(text)) && tls_roots::trust_anchor(
                sections@[i]->Ok_0@,
            ) == Err::<(Seq<u8>, Seq<u8>, Option<Seq<u8>>), _>(text@)),
        !(res matches Err(CaBundleError::Io(_))),
{
    let views = tls_roots::section_views(sections@);
    law_load_outcome(views, res);
    law_section_views(sections@);
    assert forall|i: int| 0 <= i < sections@.len() implies {
        &&& (#[trigger] sections@[i]) is Ok <==> views[i] is Ok
        &&& sections@[i] is Ok ==> views[i]->Ok_0 == sections@[i]->Ok_0@
        &&& sections@[i] is Err ==> views[i]->Err_0 == sections@[i]->Err_0@
    } by {
        assert(views[i] == tls_roots::section_view(sections@[i]));
    }
    assert forall|i: int| 0 <= i < views.len() implies {
        &&& (#[trigger] views[i]) is Ok <==> sections@[i] is Ok
        &&& views[i] is Ok ==> views[i]->Ok_0 == sections@[i]->Ok_0@
        &&& views[i] is Err ==> views[i]->Err_0 == sections@[i]->Err_0@
    } by {}
}

/// The views of sections are the sections, one for one: the bytes of each
/// certificate and the text of each error.
pub proof fn law_section_views(sections: Seq<Result<Vec<u8>, String>>)
    ensures
        tls_roots::section_views(sections).len() == sections.len(),
        forall|i: int|
            0 <= i < sections.len() ==> match #[trigger] sections[i] {
                Ok(der) => tls_roots::section_views(sections)[i] == Ok::<Seq<u8>, Seq<char>>(der@),
                Err(text) => tls_roots::section_views(sections)[i] == Err::<Seq<u8>, Seq<char>>(
                    text@,
                ),
            },
{
}

/// Loading a bundle, stated of the call over the sections that the PEM parser
/// yields: see [`law_load_outcome`].
pub proof fn law_load_ca_bundle(
    pem_bytes: &[u8],
    sections: Seq<Result<Seq<u8>, Seq<char>>>,
    res: Result<RootCertStore, CaBundleError>,
)
    requires
        call_ensures(tls_roots::load_ca_bundle, (pem_bytes,), res),
        sections == tls_roots::pem_sections(pem_bytes@),
    ensures
        res is Ok <==> {
            &&& sections.len() > 0
            &&& forall|i: int|
                0 <= i < sections.len() ==> (#[trigger] sections[i]) is Ok
                    && tls_roots::trust_anchor(sections[i]->Ok_0) is Ok
        },
        res == Err::<RootCertStore, _>(CaBundleError::Empty) <==> sections.len() == 0,
        res matches Ok(store) ==> {
            &&& tls_roots::anchors(store).len() == sections.len()
            &&& forall|i: int|
                0 <= i < sections.len() ==> tls_roots::trust_anchor((#[trigger] sections[i])->Ok_0)
                    == Ok::<_, Seq<char>>(tls_roots::anchors(store)[i])
        },
        forall|i: int|
            0 <= i < sections.len() && (#[trigger] sections[i]) is Err && (forall|j: int|
                0 <= j < i ==> (#[trigger] sections[j]) is Ok && tls_roots::trust_anchor(
                    sections[j]->Ok_0,
                ) is Ok) ==> (res matches Err(CaBundleError::Parse(text)) && text@
                == sections[i]->Err_0),
        forall|i: int|
            0 <= i < sections.len() && (#[trigger] sections[i]) is Ok && tls_roots::trust_anchor(
                sections[i]->Ok_0,
            ) is Err && (forall|j: int|
                0 <= j < i ==> (#[trigger] sections[j]) is Ok && tls_roots::trust_anchor(
                    sections[j]->Ok_0,
                ) is Ok) ==> (res matches Err(CaBundleError::Add(text)) && tls_roots::trust_anchor(
                sections[i]->Ok_0,
            ) == Err::<(Seq<u8>, Seq<u8>, Option<Seq<u8>>), _>(text@)),
        !(res matches Err(CaBundleError::Io(_))),
{
    law_load_outcome(sections, res);
}

/// Input in which no line starts with the eleven bytes of the marker that opens a
/// PEM section is refused as empty.
pub proof fn law_no_marker_is_empty(pem_bytes: &[u8], res: Result<RootCertStore, CaBundleError>)
    requires
        call_ensures(tls_roots::load_ca_bundle, (pem_bytes,), res),
        !(exists|i: int|
            {
                let line = #[trigger] pem_bytes@.skip(i);
                &&& 0 <= i && i + 11 <= pem_bytes@.len()
                &&& i == 0 || pem_bytes@[i - 1] == 10 || pem_bytes@[i - 1] == 13
                &&& line[0] == 45 && line[1] == 45 && line[2] == 45 && line[3] == 45 && line[4] == 45
                &&& line[5] == 66 && line[6] == 69 && line[7] == 71 && line[8] == 73 && line[9] == 78
                &&& line[10] == 32
            }),
    ensures
        res == Err::<RootCertStore, _>(CaBundleError::Empty),
        tls_roots::pem_sections(pem_bytes@).len() == 0,
{
    law_begin_line(pem_bytes@);
    law_load_outcome(tls_roots::pem_sections(pem_bytes@), res);
}

/// A line opens a section exactly when it starts with the bytes of
/// `-----BEGIN `; a line starts at the first byte and after each line feed or
/// carriage return.
#[verifier::spinoff_prover]
#[verifier::rlimit(30)]
pub proof fn law_begin_line(pem: Seq<u8>)
    ensures
        tls_roots::has_begin_line(pem) <==> exists|i: int|
            {
                let line = #[trigger] pem.skip(i);
                &&& 0 <= i && i + 11 <= pem.len()
                &&& i == 0 || pem[i - 1] == 10 || pem[i - 1] == 13
                &&& line[0] == 45 && line[1] == 45 && line[2] == 45 && line[3] == 45 && line[4] == 45
                &&& line[5] == 66 && line[6] == 69 && line[7] == 71 && line[8] == 73 && line[9] == 78
                &&& line[10] == 32
            },
{
    if tls_roots::has_begin_line(pem) {
        let i = choose|i: int|
            #![trigger pem[i]]
            {
                &&& 0 <= i && i + 11 <= pem.len()
                &&& i == 0 || pem[i - 1] == 10 || pem[i - 1] == 13
                &&& pem.subrange(i, i + 11) == seq![45u8, 45, 45, 45, 45, 66, 69, 71, 73, 78, 32]
            };
        lemma_marker(pem, i);
    }
    if exists|i: int|
        {
            let line = #[trigger] pem.skip(i);
            &&& 0 <= i && i + 11 <= pem.len()
            &&& i == 0 || pem[i - 1] == 10 || pem[i - 1] == 13
            &&& line[0] == 45 && line[1] == 45 && line[2] == 45 && line[3] == 45 && line[4] == 45
            &&& line[5] == 66 && line[6] == 69 && line[7] == 71 && line[8] == 73 && line[9] == 78
            &&& line[10] == 32
        } {
        let i = choose|i: int|
            {
                let line = #[trigger] pem.skip(i);
                &&& 0 <= i && i + 11 <= pem.len()
                &&& i == 0 || pem[i - 1] == 10 || pem[i - 1] == 13
                &&& line[0] == 45 && line[1] == 45 && line[2] == 45 && line[3] == 45 && line[4] == 45
                &&& line[5] == 66 && line[6] == 69 && line[7] == 71 && line[8] == 73 && line[9] == 78
                &&& line[10] == 32
            };
        lemma_marker(pem, i);
        assert(pem[i] == pem.skip(i)[0]);
    }
}

/// The eleven bytes from `i` on are the marker exactly when each of them is the
/// byte of the marker at its place.
proof fn lemma_marker(pem: Seq<u8>, i: int)
    requires
        0 <= i,
        i + 11 <= pem.len(),
    ensures
        pem.subrange(i, i + 11) == seq![45u8, 45, 45, 45, 45, 66, 69, 71, 73, 78, 32] <==> {
            let line = pem.skip(i);
            &&& line[0] == 45 && line[1] == 45 && line[2] == 45 && line[3] == 45 && line[4] == 45
            &&& line[5] == 66 && line[6] == 69 && line[7] == 71 && line[8] == 73 && line[9] == 78
            &&& line[10] == 32
        },
{
    let marker = seq![45u8, 45, 45, 45, 45, 66, 69, 71, 73, 78, 32];
    let found = pem.subrange(i, i + 11);
    let line = pem.skip(i);
    assert forall|k: int| 0 <= k < 11 implies found[k] == #[trigger] line[k] by {}
    if found == marker {
        assert(line[0] == marker[0] && line[1] == marker[1] && line[2] == marker[2] && line[3]
            == marker[3] && line[4] == marker[4] && line[5] == marker[5] && line[6] == marker[6]
            && line[7] == marker[7] && line[8] == marker[8] && line[9] == marker[9] && line[10]
            == marker[10]);
    }
    if {
        &&& line[0] == 45 && line[1] == 45 && line[2] == 45 && line[3] == 45 && line[4] == 45
        &&& line[5] == 66 && line[6] == 69 && line[7] == 71 && line[8] == 73 && line[9] == 78
        &&& line[10] == 32
    } {
        assert(found =~= marker);
    }
}

/// Loading what was read from disk: a failed read is handed on as it is, and the
/// bytes of one that succeeded load as they would without the disk.
pub proof fn law_load_from_read(
    read: Result<Vec<u8>, std::io::Error>,
    res: Result<RootCertStore, CaBundleError>,
    bytes: &[u8],
    direct: Result<RootCertStore, CaBundleError>,
)
    requires
        call_ensures(tls_roots::load_ca_bundle_from_read, (read,), res),
        read is Ok ==> bytes@ == read->Ok_0@,
        call_ensures(tls_roots::load_ca_bundle, (bytes,), direct),
    ensures
        read matches Err(e) ==> res == Err::<RootCertStore, _>(CaBundleError::Io(e)),
        read is Ok ==> match direct {
            Ok(store) => res is Ok && tls_roots::anchors(res->Ok_0) == tls_roots::anchors(store),
            Err(CaBundleError::Parse(text)) => res matches Err(CaBundleError::Parse(other))
                && other@ == text@,
            Err(CaBundleError::Add(text)) => res matches Err(CaBundleError::Add(other)) && other@
                == text@,
            Err(CaBundleError::Empty) => res == Err::<RootCertStore, _>(CaBundleError::Empty),
            Err(CaBundleError::Io(_)) => false,
        },
{
    if read is Ok {
        tls_roots::law_outcome_is_determined(
            tls_roots::pem_sections(read->Ok_0@),
            direct,
            res,
        );
    }
}

/// Bundles put behind each other: where both load, so does the whole, with the
/// anchors of the first and then those of the second; a fault of the first is the
/// fault of the whole.
pub proof fn law_bundles_add_up(
    first: Seq<Result<Seq<u8>, Seq<char>>>,
    second: Seq<Result<Seq<u8>, Seq<char>>>,
    a: Result<RootCertStore, CaBundleError>,
    b: Result<RootCertStore, CaBundleError>,
    whole: Result<RootCertStore, CaBundleError>,
)
    requires
        tls_roots::loads_to(first, a),
        tls_roots::loads_to(second, b),
        tls_roots::loads_to(first + second, whole),
    ensures
        a is Ok && b is Ok ==> whole is Ok && tls_roots::anchors(whole->Ok_0)
            == tls_roots::anchors(a->Ok_0) + tls_roots::anchors(b->Ok_0),
        a matches Err(CaBundleError::Parse(text)) ==> (whole matches Err(
            CaBundleError::Parse(other),
        ) && other@ == text@),
        a matches Err(CaBundleError::Add(text)) ==> (whole matches Err(CaBundleError::Add(other))
            && other@ == text@),
{
    let all = first + second;
    law_load_outcome(first, a);
    law_load_outcome(second, b);
    law_load_outcome(all, whole);
    assert forall|i: int| 0 <= i < first.len() implies #[trigger] all[i] == first[i] by {}
    assert forall|i: int| first.len() <= i < all.len() implies #[trigger] all[i] == second[i
        - first.len()] by {}
    if a is Ok && b is Ok {
        assert(whole is Ok);
        let store = whole->Ok_0;
        let joined = tls_roots::anchors(a->Ok_0) + tls_roots::anchors(b->Ok_0);
        assert forall|i: int| 0 <= i < all.len() implies tls_roots::anchors(store)[i]
            == joined[i] by {
            assert(tls_roots::trust_anchor(all[i]->Ok_0) == Ok::<_, Seq<char>>(
                tls_roots::anchors(store)[i],
            ));
            if i < first.len() {
                assert(all[i] == first[i]);
            } else {
                assert(all[i] == second[i - first.len()]);
            }
        }
        assert(tls_roots::anchors(store) =~= joined);
    }
    if exists|i: int| tls_roots::is_first_fault(first, i) {
        let i = choose|i: int| tls_roots::is_first_fault(first, i);
        assert(all[i] == first[i]);
        assert forall|j: int| 0 <= j < i implies tls_roots::is_trusted(#[trigger] all[j]) by {
            assert(all[j] == first[j]);
            assert(tls_roots::is_trusted(first[j]));
        }
        assert(tls_roots::is_first_fault(all, i));
    }
}

/// The store's refusal of a certificate fails the load with the text of the
/// refusal, and nothing else does.
pub proof fn law_addition_outcome(added: Result<(), String>, res: Result<(), CaBundleError>)
    requires
        call_ensures(tls_roots::addition_outcome, (added,), res),
    ensures
        added is Ok <==> res is Ok,
        added matches Err(text) ==> res == Err::<(), _>(CaBundleError::Add(text)),
{
}

} // verus!
