//! Service signatures: the matcher that names the service behind a response
//! body, and the order in which a set of signatures is kept.

use vstd::prelude::*;
use crate::matching::{contains, lemma_longer_pattern_absent, occurs_in};
use crate::text::{
    lemma_text_before_irreflexive, lemma_text_before_total, lemma_text_before_transitive,
    text_before, text_precedes,
};

verus! {

/// A named substring pattern. A response body that holds `match_` is taken
/// to come from the service `name`.
#[derive(Debug, Clone)]
pub struct Signature {
    pub name: String,
    pub match_: String,
}

/// What a signature says, as plain character sequences.
pub struct SignatureView {
    pub name: Seq<char>,
    pub pattern: Seq<char>,
}

impl View for Signature {
    type V = SignatureView;

    open spec fn view(&self) -> SignatureView {
        SignatureView { name: self.name@, pattern: self.match_@ }
    }
}

/// The views of a run of signatures, in order.
pub open spec fn signature_views(signatures: Seq<Signature>) -> Seq<SignatureView> {
    signatures.map_values(|s: Signature| s@)
}

/// Index of the first signature at or after `from` whose pattern occurs in
/// `body`; the length of `signatures` when there is none.
pub open spec fn first_match_from(body: Seq<char>, signatures: Seq<SignatureView>, from: int) -> int
    decreases signatures.len() - from,
{
    if from < 0 || from >= signatures.len() {
        signatures.len() as int
    } else if occurs_in(body, signatures[from].pattern) {
        from
    } else {
        first_match_from(body, signatures, from + 1)
    }
}

/// The service that `signatures` assigns to `body`: the name of the first
/// signature, in sequence order, whose pattern occurs in `body`.
pub open spec fn identified(body: Seq<char>, signatures: Seq<SignatureView>) -> Option<Seq<char>> {
    let at = first_match_from(body, signatures, 0);
    if at < signatures.len() {
        Some(signatures[at].name)
    } else {
        None
    }
}

/// The view of an optional owned string.
pub open spec fn name_view(name: Option<String>) -> Option<Seq<char>> {
    match name {
        Some(n) => Some(n@),
        None => None,
    }
}

/// Signature `at` matches `body` and none before it does.
pub open spec fn is_first_match(body: Seq<char>, signatures: Seq<SignatureView>, at: int) -> bool {
    &&& 0 <= at < signatures.len()
    &&& occurs_in(body, signatures[at].pattern)
    &&& forall|i: int| 0 <= i < at ==> !occurs_in(body, #[trigger] signatures[i].pattern)
}

/// Names the service behind `response`: the first signature whose pattern
/// occurs in the response wins; no match gives `None`. The test is for the
/// literal pattern, letter case included.
pub fn identify_service(response: &str, signatures: &[Signature]) -> (service: Option<String>)
    ensures
        name_view(service) == identified(response@, signature_views(signatures@)),
        match service {
            Some(name) => exists|at: int| #[trigger]
                is_first_match(response@, signature_views(signatures@), at) && name@
                    == signatures@[at].name@,
            None => forall|i: int|
                0 <= i < signatures@.len() ==> !occurs_in(
                    response@,
                    #[trigger] signatures@[i].match_@,
                ),
        },
{
    let ghost views = signature_views(signatures@);
    let mut i: usize = 0;
    while i < signatures.len()
        invariant
            i <= signatures.len(),
            views == signature_views(signatures@),
            first_match_from(response@, views, 0) == first_match_from(response@, views, i as int),
        decreases signatures.len() - i,
    {
        let sig = &signatures[i];
        assert(views[i as int] == sig@);
        if contains(response, sig.match_.as_str()) {
            proof {
                lemma_first_match_from(response@, views, 0);
                assert(is_first_match(response@, views, i as int));
            }
            return Some(sig.name.clone());
        }
        i += 1;
    }
    proof {
        lemma_first_match_from(response@, views, 0);
        assert forall|k: int| 0 <= k < signatures@.len() implies !occurs_in(
            response@,
            #[trigger] signatures@[k].match_@,
        ) by {
            assert(views[k].pattern == signatures@[k].match_@);
        }
    }
    None
}

/// What `first_match_from` finds: an index from `from` on whose signature
/// matches while none between `from` and it does, or the length where none
/// from `from` on matches.
pub proof fn lemma_first_match_from(body: Seq<char>, signatures: Seq<SignatureView>, from: int)
    requires
        0 <= from <= signatures.len(),
    ensures
        from <= first_match_from(body, signatures, from) <= signatures.len(),
        first_match_from(body, signatures, from) < signatures.len() ==> occurs_in(
            body,
            signatures[first_match_from(body, signatures, from)].pattern,
        ),
        forall|i: int|
            from <= i < first_match_from(body, signatures, from) ==> !occurs_in(
                body,
                #[trigger] signatures[i].pattern,
            ),
    decreases signatures.len() - from,
{
    if from < signatures.len() && !occurs_in(body, signatures[from].pattern) {
        lemma_first_match_from(body, signatures, from + 1);
    }
}

/// The same body and the same signatures give the same answer, however
/// often they are asked.
pub proof fn lemma_identification_repeats(
    first: Option<String>,
    second: Option<String>,
    body: Seq<char>,
    signatures: Seq<SignatureView>,
)
    requires
        name_view(first) == identified(body, signatures),
        name_view(second) == identified(body, signatures),
    ensures
        name_view(first) == name_view(second),
{
}

/// Order is priority: where several signatures match, the one that stands
/// first names the service.
pub proof fn lemma_first_listed_wins(body: Seq<char>, signatures: Seq<SignatureView>, winner: int)
    requires
        0 <= winner < signatures.len(),
        occurs_in(body, signatures[winner].pattern),
        forall|i: int| 0 <= i < winner ==> !occurs_in(body, #[trigger] signatures[i].pattern),
    ensures
        identified(body, signatures) == Some(signatures[winner].name),
{
    lemma_first_match_from(body, signatures, 0);
}

/// No service is named exactly when no signature matches; in particular
/// when there is no signature at all.
pub proof fn lemma_unidentified_without_match(body: Seq<char>, signatures: Seq<SignatureView>)
    ensures
        identified(body, signatures) is None <==> forall|i: int|
            0 <= i < signatures.len() ==> !occurs_in(body, #[trigger] signatures[i].pattern),
{
    lemma_first_match_from(body, signatures, 0);
}

/// The empty body holds no non-empty pattern, so no well-formed signature
/// names a service for it.
pub proof fn lemma_empty_body_unidentified(signatures: Seq<SignatureView>)
    requires
        all_well_formed(signatures),
    ensures
        identified(Seq::<char>::empty(), signatures) is None,
{
    lemma_unidentified_without_match(Seq::<char>::empty(), signatures);
    assert forall|i: int| 0 <= i < signatures.len() implies !occurs_in(
        Seq::<char>::empty(),
        #[trigger] signatures[i].pattern,
    ) by {
        lemma_longer_pattern_absent(Seq::<char>::empty(), signatures[i].pattern);
    }
}

/// A signature is well formed when neither its name nor its pattern is
/// empty.
pub open spec fn well_formed(signature: SignatureView) -> bool {
    signature.name.len() > 0 && signature.pattern.len() > 0
}

/// Every signature of the run is well formed.
pub open spec fn all_well_formed(signatures: Seq<SignatureView>) -> bool {
    forall|i: int| 0 <= i < signatures.len() ==> well_formed(#[trigger] signatures[i])
}

/// The view of an optional signature.
pub open spec fn optional_view(signature: Option<Signature>) -> Option<SignatureView> {
    match signature {
        Some(s) => Some(s@),
        None => None,
    }
}

/// The view of an optional borrowed text.
pub open spec fn text_view(text: Option<&str>) -> Option<Seq<char>> {
    match text {
        Some(t) => Some(t@),
        None => None,
    }
}

/// The signature made of `name` and `pattern`, where both are non-empty.
pub open spec fn signature_from(name: Seq<char>, pattern: Seq<char>) -> Option<SignatureView> {
    if name.len() > 0 && pattern.len() > 0 {
        Some(SignatureView { name, pattern })
    } else {
        None
    }
}

/// The signature with the given name and pattern, unless one of them is
/// empty.
pub fn checked_signature(name: &str, pattern: &str) -> (signature: Option<Signature>)
    ensures
        optional_view(signature) == signature_from(name@, pattern@),
{
    if name.is_empty() || pattern.is_empty() {
        None
    } else {
        Some(Signature { name: name.to_owned(), match_: pattern.to_owned() })
    }
}

/// The order of signatures: by name, and by pattern among those of one
/// name, each in the order of strings.
pub open spec fn signature_before(a: SignatureView, b: SignatureView) -> bool {
    text_before(a.name, b.name) || (a.name == b.name && text_before(a.pattern, b.pattern))
}

/// Each signature of the run comes before those that follow it, so that
/// none stands in it twice.
pub open spec fn strictly_ordered(signatures: Seq<SignatureView>) -> bool {
    forall|i: int, j: int|
        0 <= i < j < signatures.len() ==> signature_before(signatures[i], signatures[j])
}

/// The order of signatures is transitive.
pub proof fn lemma_signature_before_transitive(a: SignatureView, b: SignatureView, c: SignatureView)
    requires
        signature_before(a, b),
        signature_before(b, c),
    ensures
        signature_before(a, c),
{
    lemma_text_before_irreflexive(a.name);
    lemma_text_before_irreflexive(c.name);
    if text_before(a.name, b.name) && text_before(b.name, c.name) {
        lemma_text_before_transitive(a.name, b.name, c.name);
    }
    if a.name == b.name && b.name == c.name {
        lemma_text_before_transitive(a.pattern, b.pattern, c.pattern);
    }
}

/// Of two different signatures one comes before the other, and no signature
/// comes before itself.
pub proof fn lemma_signature_before_total(a: SignatureView, b: SignatureView)
    ensures
        a == b || signature_before(a, b) || signature_before(b, a),
        !signature_before(a, a),
{
    lemma_text_before_total(a.name, b.name);
    lemma_text_before_total(a.pattern, b.pattern);
    lemma_text_before_irreflexive(a.name);
    lemma_text_before_irreflexive(a.pattern);
}

/// Whether `a` comes before `b` in the order of signatures.
pub fn signature_precedes(a: &Signature, b: &Signature) -> (before: bool)
    ensures
        before == signature_before(a@, b@),
{
    if text_precedes(a.name.as_str(), b.name.as_str()) {
        true
    } else if a.name == b.name {
        text_precedes(a.match_.as_str(), b.match_.as_str())
    } else {
        false
    }
}

/// Puts `signature` at its place in the ordered run `out`, unless it
/// stands there already.
fn insert_ordered(out: &mut Vec<Signature>, signature: Signature)
    requires
        strictly_ordered(signature_views(old(out)@)),
    ensures
        strictly_ordered(signature_views(final(out)@)),
        forall|v: SignatureView|
            signature_views(final(out)@).contains(v) <==> (signature_views(old(out)@).contains(v)
                || v == signature@),
{
    let ghost before = signature_views(out@);
    let mut at: usize = 0;
    while at < out.len() && signature_precedes(&out[at], &signature)
        invariant
            at <= out.len(),
            out@ == old(out)@,
            before == signature_views(out@),
            forall|k: int| 0 <= k < at ==> signature_before(#[trigger] before[k], signature@),
        decreases out.len() - at,
    {
        at += 1;
    }
    if at < out.len() && out[at].name == signature.name && out[at].match_ == signature.match_ {
        assert(before[at as int] == signature@);
        return ;
    }
    proof {
        if at < before.len() {
            lemma_signature_before_total(before[at as int], signature@);
            assert forall|k: int| at < k < before.len() implies signature_before(
                signature@,
                #[trigger] before[k],
            ) by {
                lemma_signature_before_transitive(signature@, before[at as int], before[k]);
            }
        }
    }
    out.insert(at, signature);
    proof {
        let after = signature_views(out@);
        assert(after =~= before.insert(at as int, signature@));
        assert forall|i: int, j: int| 0 <= i < j < after.len() implies signature_before(
            after[i],
            after[j],
        ) by {
            if i < at && j > at {
                assert(after[i] == before[i] && after[j] == before[j - 1]);
            }
        }
        assert forall|v: SignatureView| after.contains(v) <==> (before.contains(v) || v
            == signature@) by {
            if after.contains(v) {
                let i = choose|i: int| 0 <= i < after.len() && after[i] == v;
                if i < at {
                    assert(before[i] == v);
                } else if i > at {
                    assert(before[i - 1] == v);
                }
            }
            if before.contains(v) {
                let i = choose|i: int| 0 <= i < before.len() && before[i] == v;
                if i < at {
                    assert(after[i] == v);
                } else {
                    assert(after[i + 1] == v);
                }
            }
            if v == signature@ {
                assert(after[at as int] == v);
            }
        }
    }
}

/// Brings the signatures read from all files into their final form: in the
/// order of signatures, each one once. What comes out holds exactly the
/// signatures that went in.
pub fn normalise(signatures: Vec<Signature>) -> (ordered: Vec<Signature>)
    ensures
        strictly_ordered(signature_views(ordered@)),
        forall|v: SignatureView|
            signature_views(ordered@).contains(v) <==> signature_views(signatures@).contains(v),
        all_well_formed(signature_views(signatures@)) ==> all_well_formed(
            signature_views(ordered@),
        ),
{
    let ghost all = signature_views(signatures@);
    let mut rest = signatures;
    let mut ordered: Vec<Signature> = Vec::new();
    loop
        invariant
            all == signature_views(signatures@),
            strictly_ordered(signature_views(ordered@)),
            forall|v: SignatureView|
                (signature_views(ordered@).contains(v) || signature_views(rest@).contains(v))
                    <==> all.contains(v),
        decreases rest.len(),
    {
        let ghost left = signature_views(rest@);
        let ghost done = signature_views(ordered@);
        match rest.pop() {
            Some(signature) => {
                insert_ordered(&mut ordered, signature);
                proof {
                    let now_left = signature_views(rest@);
                    assert(left =~= now_left.push(signature@));
                    assert forall|v: SignatureView|
                        (signature_views(ordered@).contains(v) || now_left.contains(v))
                            <==> all.contains(v) by {
                        if now_left.contains(v) {
                            let i = choose|i: int| 0 <= i < now_left.len() && now_left[i] == v;
                            assert(left[i] == v);
                        }
                        if v == signature@ {
                            assert(left[left.len() - 1] == v);
                        }
                        if left.contains(v) {
                            let i = choose|i: int| 0 <= i < left.len() && left[i] == v;
                            if i < now_left.len() {
                                assert(now_left[i] == v);
                            }
                        }
                    }
                }
            },
            None => {
                proof {
                    if all_well_formed(all) {
                        lemma_normalised_stay_well_formed(all, signature_views(ordered@));
                    }
                }
                return ordered;
            },
        }
    }
}

/// Two ordered runs that hold the same signatures are the same run: the
/// final form of the signatures does not depend on the order in which the
/// files were read.
pub proof fn lemma_final_form_is_unique(first: Seq<SignatureView>, second: Seq<SignatureView>)
    requires
        strictly_ordered(first),
        strictly_ordered(second),
        forall|v: SignatureView| first.contains(v) <==> second.contains(v),
    ensures
        first == second,
    decreases first.len(),
{
    if first.len() == 0 {
        if second.len() > 0 {
            assert(second.contains(second[0]));
        }
    } else {
        let a = first.last();
        assert(first.contains(a));
        let ka = choose|k: int| 0 <= k < second.len() && second[k] == a;
        let b = second.last();
        assert(second.contains(b));
        let kb = choose|k: int| 0 <= k < first.len() && first[k] == b;
        lemma_signature_before_total(a, b);
        assert(a == b) by {
            if ka < second.len() - 1 {
                assert(signature_before(second[ka], second[second.len() - 1]));
            }
            if kb < first.len() - 1 {
                assert(signature_before(first[kb], first[first.len() - 1]));
            }
            if signature_before(a, b) && signature_before(b, a) {
                lemma_signature_before_transitive(a, b, a);
            }
        }
        let front = first.drop_last();
        let other = second.drop_last();
        assert forall|v: SignatureView| front.contains(v) <==> other.contains(v) by {
            lemma_signature_before_total(v, v);
            if front.contains(v) {
                let k = choose|k: int| 0 <= k < front.len() && front[k] == v;
                assert(signature_before(first[k], first[first.len() - 1]));
                assert(first.contains(v));
                let m = choose|m: int| 0 <= m < second.len() && second[m] == v;
                assert(other[m] == v);
            }
            if other.contains(v) {
                let k = choose|k: int| 0 <= k < other.len() && other[k] == v;
                assert(signature_before(second[k], second[second.len() - 1]));
                assert(second.contains(v));
                let m = choose|m: int| 0 <= m < first.len() && first[m] == v;
                assert(front[m] == v);
            }
        }
        lemma_final_form_is_unique(front, other);
        assert(second =~= other.push(b));
    }
}

/// Bringing well-formed signatures into their final form leaves them well
/// formed.
pub proof fn lemma_normalised_stay_well_formed(
    loaded: Seq<SignatureView>,
    ordered: Seq<SignatureView>,
)
    requires
        all_well_formed(loaded),
        forall|v: SignatureView| ordered.contains(v) <==> loaded.contains(v),
    ensures
        all_well_formed(ordered),
{
    assert forall|i: int| 0 <= i < ordered.len() implies well_formed(#[trigger] ordered[i]) by {
        assert(ordered.contains(ordered[i]));
        let k = choose|k: int| 0 <= k < loaded.len() && loaded[k] == ordered[i];
        assert(well_formed(loaded[k]));
    }
}

} // verus!
