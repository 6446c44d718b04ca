//! Reading signatures out of signature files: YAML documents that list
//! them under `signatures`, as a bare list, or as a flat mapping from names
//! to patterns. Entries that describe no well-formed signature are skipped.

use vstd::prelude::*;
use vstd::string::StrSliceExecFns;
use crate::error::ScanError;
use crate::localisator::{self, Catalogue};
use crate::signatures::{
    all_well_formed, checked_signature, normalise, optional_view, signature_from,
    signature_views, strictly_ordered, text_view, well_formed, Signature, SignatureView,
};
use crate::yaml::{
    as_mapping, as_sequence, as_str, contents, document, entries, entries_of, entry_contents, get,
    lookup, message_of, parse, shape_of, untagged, yaml_of, Shape, Yaml,
};

verus! {

/// The extension is `yml` or `yaml`, in small or capital letters.
pub open spec fn is_yaml_extension(extension: Seq<char>) -> bool {
    ||| {
        &&& extension.len() == 3
        &&& (extension[0] == 'y' || extension[0] == 'Y')
        &&& (extension[1] == 'm' || extension[1] == 'M')
        &&& (extension[2] == 'l' || extension[2] == 'L')
    }
    ||| {
        &&& extension.len() == 4
        &&& (extension[0] == 'y' || extension[0] == 'Y')
        &&& (extension[1] == 'a' || extension[1] == 'A')
        &&& (extension[2] == 'm' || extension[2] == 'M')
        &&& (extension[3] == 'l' || extension[3] == 'L')
    }
}

/// Whether a file is a signature file, by the extension of its name: the
/// part after the last dot, `None` where the name has none.
pub fn is_yaml_file(extension: Option<&str>) -> (yaml: bool)
    ensures
        yaml == match extension {
            Some(text) => is_yaml_extension(text@),
            None => false,
        },
{
    match extension {
        Some(text) => {
            let n = text.unicode_len();
            if n == 3 {
                let (y, m, l) = (text.get_char(0), text.get_char(1), text.get_char(2));
                (y == 'y' || y == 'Y') && (m == 'm' || m == 'M') && (l == 'l' || l == 'L')
            } else if n == 4 {
                let (y, a) = (text.get_char(0), text.get_char(1));
                let (m, l) = (text.get_char(2), text.get_char(3));
                (y == 'y' || y == 'Y') && (a == 'a' || a == 'A') && (m == 'm' || m == 'M') && (l
                    == 'l' || l == 'L')
            } else {
                false
            }
        },
        None => false,
    }
}

/// The text of a string value, looking through tags.
pub open spec fn text_of(content: Yaml) -> Option<Seq<char>> {
    match untagged(content) {
        Yaml::Text(text) => Some(text),
        _ => None,
    }
}

/// The text that the entries hold under the plain string `key`.
pub open spec fn text_under(entries: Seq<(Yaml, Yaml)>, key: Seq<char>) -> Option<Seq<char>> {
    match lookup(entries, key) {
        Some(value) => text_of(value),
        None => None,
    }
}

/// The signature that the entries of one mapping describe: its name stands
/// under `name`, its pattern under `match_` or else under `match`, both as
/// strings and neither empty.
pub open spec fn signature_in_entries(entries: Seq<(Yaml, Yaml)>) -> Option<SignatureView> {
    let name = text_under(entries, "name"@);
    let pattern = if text_under(entries, "match_"@) is Some {
        text_under(entries, "match_"@)
    } else {
        text_under(entries, "match"@)
    };
    if name is Some && pattern is Some {
        signature_from(name->0, pattern->0)
    } else {
        None
    }
}

/// What an optional signature adds to a run: itself, or nothing.
pub open spec fn as_run(signature: Option<SignatureView>) -> Seq<SignatureView> {
    match signature {
        Some(s) => seq![s],
        None => Seq::empty(),
    }
}

/// What one item of a list adds: the signature of its mapping, if it is a
/// mapping that describes one.
pub open spec fn signatures_of_item(item: Yaml) -> Seq<SignatureView> {
    match untagged(item) {
        Yaml::Mapping(entries) => as_run(signature_in_entries(entries)),
        _ => Seq::empty(),
    }
}

/// The signatures of a list of items, in order; items that describe none are
/// skipped.
pub open spec fn signatures_in_items(items: Seq<Yaml>) -> Seq<SignatureView>
    decreases items.len(),
{
    if items.len() == 0 {
        Seq::empty()
    } else {
        signatures_in_items(items.drop_last()) + signatures_of_item(items.last())
    }
}

/// What one entry of a flat mapping adds: the signature whose name is the
/// key and whose pattern is the value, where both are strings and neither
/// is empty.
pub open spec fn signatures_of_entry(entry: (Yaml, Yaml)) -> Seq<SignatureView> {
    if text_of(entry.0) is Some && text_of(entry.1) is Some {
        as_run(signature_from(text_of(entry.0)->0, text_of(entry.1)->0))
    } else {
        Seq::empty()
    }
}

/// The signatures of a flat mapping from names to patterns, in order.
pub open spec fn signatures_in_pairs(entries: Seq<(Yaml, Yaml)>) -> Seq<SignatureView>
    decreases entries.len(),
{
    if entries.len() == 0 {
        Seq::empty()
    } else {
        signatures_in_pairs(entries.drop_last()) + signatures_of_entry(entries.last())
    }
}

/// The signatures of a mapping: those of the list under `signatures` where
/// there is one, else those of the mapping read as names and patterns.
pub open spec fn signatures_in_mapping(entries: Seq<(Yaml, Yaml)>) -> Seq<SignatureView> {
    match lookup(entries, "signatures"@) {
        Some(listed) => match untagged(listed) {
            Yaml::Sequence(items) => signatures_in_items(items),
            _ => signatures_in_pairs(entries),
        },
        None => signatures_in_pairs(entries),
    }
}

/// The signatures of a document: a mapping or a bare list gives what it
/// holds, any other document gives none.
pub open spec fn signatures_in(content: Yaml) -> Seq<SignatureView> {
    match content {
        Yaml::Mapping(entries) => signatures_in_mapping(entries),
        Yaml::Sequence(items) => signatures_in_items(items),
        _ => Seq::empty(),
    }
}

/// The signatures that a list of items gives are well formed.
pub proof fn lemma_items_give_well_formed(items: Seq<Yaml>)
    ensures
        all_well_formed(signatures_in_items(items)),
    decreases items.len(),
{
    if items.len() > 0 {
        lemma_items_give_well_formed(items.drop_last());
    }
}

/// The signatures that a flat mapping gives are well formed.
pub proof fn lemma_pairs_give_well_formed(entries: Seq<(Yaml, Yaml)>)
    ensures
        all_well_formed(signatures_in_pairs(entries)),
    decreases entries.len(),
{
    if entries.len() > 0 {
        lemma_pairs_give_well_formed(entries.drop_last());
    }
}

/// Every signature read out of a document is well formed: entries with an
/// empty name or an empty pattern are dropped while loading.
pub proof fn lemma_loaded_signatures_well_formed(content: Yaml)
    ensures
        all_well_formed(signatures_in(content)),
{
    match content {
        Yaml::Mapping(entries) => {
            lemma_pairs_give_well_formed(entries);
            match lookup(entries, "signatures"@) {
                Some(listed) => match untagged(listed) {
                    Yaml::Sequence(items) => {
                        lemma_items_give_well_formed(items);
                    },
                    _ => {},
                },
                None => {},
            }
        },
        Yaml::Sequence(items) => {
            lemma_items_give_well_formed(items);
        },
        _ => {},
    }
}

/// The text that `mapping` holds under `key`, if it holds a string there.
fn text_under_key<'a>(mapping: &'a serde_yaml::Mapping, key: &str) -> (text: Option<&'a str>)
    ensures
        text_view(text) == text_under(entries_of(*mapping), key@),
{
    match get(mapping, key) {
        Some(value) => as_str(value),
        None => None,
    }
}

/// Reads one signature out of a mapping with the keys `name` and `match_`
/// (or `match`).
pub fn extract_signature_from_mapping(mapping: &serde_yaml::Mapping) -> (signature: Option<
    Signature,
>)
    ensures
        optional_view(signature) == signature_in_entries(entries_of(*mapping)),
{
    let name = text_under_key(mapping, "name");
    let pattern = match text_under_key(mapping, "match_") {
        Some(text) => Some(text),
        None => text_under_key(mapping, "match"),
    };
    match (name, pattern) {
        (Some(n), Some(p)) => checked_signature(n, p),
        _ => None,
    }
}

/// Appends `signature` to `out` where there is one.
fn push_found(signature: Option<Signature>, out: &mut Vec<Signature>)
    ensures
        signature_views(final(out)@) == signature_views(old(out)@) + as_run(
            optional_view(signature),
        ),
{
    if let Some(found) = signature {
        out.push(found);
    }
}

/// Appends to `out` the signatures of a list of values, in order.
pub fn process_sequence(items: &Vec<serde_yaml::Value>, out: &mut Vec<Signature>)
    ensures
        signature_views(final(out)@) == signature_views(old(out)@) + signatures_in_items(
            contents(items@),
        ),
{
    let ghost all = contents(items@);
    let mut i: usize = 0;
    assert(all.take(0) =~= Seq::<Yaml>::empty());
    while i < items.len()
        invariant
            i <= items.len(),
            all == contents(items@),
            signature_views(out@) == signature_views(old(out)@) + signatures_in_items(
                all.take(i as int),
            ),
        decreases items.len() - i,
    {
        let item = &items[i];
        let found = match as_mapping(item) {
            Some(mapping) => extract_signature_from_mapping(mapping),
            None => None,
        };
        proof {
            assert(all.take(i + 1).drop_last() =~= all.take(i as int));
        }
        push_found(found, out);
        i += 1;
    }
    assert(all.take(i as int) =~= all);
}

/// Appends to `out` the signatures of a flat mapping from names to
/// patterns, in order.
fn process_pairs(mapping: &serde_yaml::Mapping, out: &mut Vec<Signature>)
    ensures
        signature_views(final(out)@) == signature_views(old(out)@) + signatures_in_pairs(
            entries_of(*mapping),
        ),
{
    let pairs = entries(mapping);
    let ghost all = entries_of(*mapping);
    let mut i: usize = 0;
    assert(all.take(0) =~= Seq::<(Yaml, Yaml)>::empty());
    while i < pairs.len()
        invariant
            i <= pairs.len(),
            all == entry_contents(pairs@),
            signature_views(out@) == signature_views(old(out)@) + signatures_in_pairs(
                all.take(i as int),
            ),
        decreases pairs.len() - i,
    {
        let pair = &pairs[i];
        let found = match (as_str(pair.0), as_str(pair.1)) {
            (Some(name), Some(pattern)) => checked_signature(name, pattern),
            _ => None,
        };
        proof {
            assert(all.take(i + 1).drop_last() =~= all.take(i as int));
        }
        push_found(found, out);
        i += 1;
    }
    assert(all.take(i as int) =~= all);
}

/// Appends to `out` the signatures of a mapping: those listed under
/// `signatures`, or else the mapping's own entries read as names and patterns.
pub fn process_mapping(mapping: &serde_yaml::Mapping, out: &mut Vec<Signature>)
    ensures
        signature_views(final(out)@) == signature_views(old(out)@) + signatures_in_mapping(
            entries_of(*mapping),
        ),
{
    if let Some(listed) = get(mapping, "signatures") {
        if let Some(items) = as_sequence(listed) {
            process_sequence(items, out);
            return ;
        }
    }
    process_pairs(mapping, out);
}

/// Appends to `out` the signatures of a document.
pub fn process_value(value: &serde_yaml::Value, out: &mut Vec<Signature>)
    ensures
        signature_views(final(out)@) == signature_views(old(out)@) + signatures_in(
            yaml_of(*value),
        ),
{
    match shape_of(value) {
        Shape::Mapping(mapping) => process_mapping(mapping, out),
        Shape::Sequence(items) => process_sequence(items, out),
        Shape::Other => {
            assert(signature_views(out@) =~= signature_views(old(out)@) + signatures_in(
                yaml_of(*value),
            ));
        },
    }
}

/// Reads the signatures out of the text of one signature file. A text that
/// is no YAML document is refused with the parser's message.
pub fn parse_signatures_from_str(content: &str) -> (parsed: Result<Vec<Signature>, ScanError>)
    ensures
        match document(content@) {
            Ok(found) => parsed matches Ok(signatures) && signature_views(signatures@)
                == signatures_in(found),
            Err(message) => parsed matches Err(ScanError::Config(detail)) && detail@ == message,
        },
        parsed matches Ok(signatures) ==> all_well_formed(signature_views(signatures@)),
{
    match parse(content) {
        Ok(value) => {
            let mut out: Vec<Signature> = Vec::new();
            process_value(&value, &mut out);
            proof {
                lemma_loaded_signatures_well_formed(yaml_of(value));
            }
            Ok(out)
        },
        Err(error) => Err(ScanError::Config(message_of(&error))),
    }
}

/// Adds the signatures of one signature file, given by its text, to those
/// read so far. A text that is no YAML document adds nothing and is
/// reported with the parser's message, for the caller to show and go on.
pub fn load_signatures_from_file(content: &str, out: &mut Vec<Signature>) -> (loaded: Result<
    (),
    ScanError,
>)
    ensures
        match document(content@) {
            Ok(found) => loaded is Ok && signature_views(final(out)@) == signature_views(
                old(out)@,
            ) + signatures_in(found),
            Err(message) => loaded matches Err(ScanError::Config(detail)) && detail@ == message
                && final(out)@ == old(out)@,
        },
        all_well_formed(signature_views(old(out)@)) ==> all_well_formed(
            signature_views(final(out)@),
        ),
{
    match parse_signatures_from_str(content) {
        Ok(mut signatures) => {
            let ghost added = signature_views(signatures@);
            out.append(&mut signatures);
            assert(signature_views(out@) =~= signature_views(old(out)@) + added);
            assert(all_well_formed(signature_views(old(out)@)) ==> all_well_formed(
                signature_views(out@),
            )) by {
                let before = signature_views(old(out)@);
                if all_well_formed(before) {
                    assert forall|i: int| 0 <= i < (before + added).len() implies well_formed(
                        #[trigger] (before + added)[i],
                    ) by {
                        if i < before.len() {
                            assert(well_formed(before[i]));
                        } else {
                            assert(well_formed(added[i - before.len()]));
                        }
                    }
                }
            }
            Ok(())
        },
        Err(error) => Err(error),
    }
}

/// Makes the signature set of a scan out of what the signature files gave:
/// `gathered` holds the signatures of all files in the order in which they
/// were read, and is `None` where the signature directory does not exist,
/// which is an error. The set holds each signature once, in the order of
/// signatures.
pub fn load_signatures(gathered: Option<Vec<Signature>>, catalogue: &Catalogue) -> (loaded: Result<
    Vec<Signature>,
    ScanError,
>)
    ensures
        match gathered {
            Some(found) => {
                &&& loaded matches Ok(signatures)
                &&& strictly_ordered(signature_views(signatures@))
                &&& forall|v: SignatureView|
                    signature_views(signatures@).contains(v) <==> signature_views(
                        found@,
                    ).contains(v)
                &&& all_well_formed(signature_views(found@)) ==> all_well_formed(
                    signature_views(signatures@),
                )
            },
            None => loaded matches Err(ScanError::Config(detail)) && detail@
                == catalogue.message("error_signatures_dir_not_found"@),
        },
{
    match gathered {
        Some(found) => Ok(normalise(found)),
        None => Err(
            ScanError::Config(localisator::get(catalogue, "error_signatures_dir_not_found")),
        ),
    }
}

} // verus!
