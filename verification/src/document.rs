//! Registry replies as JSON documents: parsing and the lookup of the asset
//! URL at its two known places.
//!
//! Parsing and navigation are left to `serde_json`. What this module relies
//! on is written down in the contracts of four small functions around its
//! calls; everything after them is verified here.

use vstd::prelude::*;

verus! {

/// `serde_json::Value`, a parsed JSON value. Nothing inside it is visible
/// here; it is read through the functions below.
#[verifier::external_type_specification]
#[verifier::external_body]
pub struct ExJsonValue(serde_json::Value);

/// `serde_json::Error`, the parser's error. It is only carried to
/// [`describe`].
#[verifier::external_type_specification]
#[verifier::external_body]
pub struct ExJsonError(serde_json::Error);

/// The strings that a JSON value holds, each under the path of object keys
/// that leads to it from the value itself. A string value holds itself under
/// the empty path; an object holds, under a key followed by a path, what its
/// member of that key holds under the path; any other value holds nothing.
pub uninterp spec fn string_leaves(value: serde_json::Value) -> Map<Seq<Seq<char>>, Seq<char>>;

/// The string leaves of the document that `body` is the JSON text of, or
/// `None` where `body` is no JSON text.
pub uninterp spec fn document_leaves(body: Seq<u8>) -> Option<Map<Seq<Seq<char>>, Seq<char>>>;

/// The part of `leaves` that lies under `key`, with `key` taken off the front
/// of each path.
pub open spec fn below(leaves: Map<Seq<Seq<char>>, Seq<char>>, key: Seq<char>) -> Map<
    Seq<Seq<char>>,
    Seq<char>,
> {
    Map::new(
        |path: Seq<Seq<char>>| leaves.contains_key(seq![key] + path),
        |path: Seq<Seq<char>>| leaves[seq![key] + path],
    )
}

/// The string that `leaves` holds at `outer.inner`, if any.
pub open spec fn leaf_at(
    leaves: Map<Seq<Seq<char>>, Seq<char>>,
    outer: Seq<char>,
    inner: Seq<char>,
) -> Option<Seq<char>> {
    if leaves.contains_key(seq![outer, inner]) {
        Some(leaves[seq![outer, inner]])
    } else {
        None
    }
}

/// `primary` where it is present, else `fallback`.
pub open spec fn preferred<T>(primary: Option<T>, fallback: Option<T>) -> Option<T> {
    match primary {
        Some(_) => primary,
        None => fallback,
    }
}

/// The direct asset URL in a registry reply: the string at `files.download`,
/// or else the one at `downloads.universal`.
pub open spec fn asset_url_in(leaves: Map<Seq<Seq<char>>, Seq<char>>) -> Option<Seq<char>> {
    preferred(leaf_at(leaves, "files"@, "download"@), leaf_at(leaves, "downloads"@, "universal"@))
}

/// `serde_json::from_slice` at type `Value`: parses `body` as one JSON
/// document. The contract claims that success and the strings of the
/// document depend on the bytes alone.
#[verifier::external_body]
fn parse_document(body: &[u8]) -> (result: Result<serde_json::Value, serde_json::Error>)
    ensures
        result matches Ok(document) ==> document_leaves(body@) == Some(string_leaves(document)),
        result is Err ==> document_leaves(body@) is None,
{
    serde_json::from_slice::<serde_json::Value>(body)
}

/// `serde_json::Value::get` with a string index: the member of that key
/// where the value is an object that has one, else `None`. The contract
/// claims that the member holds what the value holds under the key, and that
/// without a member the value holds nothing there.
#[verifier::external_body]
fn member<'a>(value: &'a serde_json::Value, key: &str) -> (found: Option<&'a serde_json::Value>)
    ensures
        found matches Some(child) ==> string_leaves(*child) == below(string_leaves(*value), key@),
        found is None ==> below(string_leaves(*value), key@).dom() == Set::<Seq<Seq<char>>>::empty(),
{
    value.get(key)
}

/// `serde_json::Value::as_str`: the string of a string value, else `None`.
#[verifier::external_body]
fn as_text<'a>(value: &'a serde_json::Value) -> (found: Option<&'a str>)
    ensures
        found matches Some(s) ==> string_leaves(*value).contains_key(Seq::empty())
            && string_leaves(*value)[Seq::empty()] == s@,
        found is None ==> !string_leaves(*value).contains_key(Seq::empty()),
{
    value.as_str()
}

/// The `Display` text of a `serde_json::Error`. Nothing is claimed of it.
#[verifier::external_body]
fn describe(error: &serde_json::Error) -> String {
    error.to_string()
}

/// A reply body that is no JSON document.
#[derive(Clone, Debug, PartialEq, Eq)]
pub struct MalformedDocument {
    /// The parser's account of what is wrong.
    pub detail: String,
}

/// `primary` where it is present, else `fallback`.
pub fn first_present(primary: Option<String>, fallback: Option<String>) -> (chosen: Option<String>)
    ensures
        chosen == preferred(primary, fallback),
{
    match primary {
        Some(url) => Some(url),
        None => fallback,
    }
}

/// The string at `outer.inner` of `document`, if there is one.
pub fn nested_text(document: &serde_json::Value, outer: &str, inner: &str) -> (found: Option<
    String,
>)
    ensures
        found.deep_view() == leaf_at(string_leaves(*document), outer@, inner@),
{
    let ghost leaves = string_leaves(*document);
    let ghost path = seq![outer@, inner@];
    proof {
        assert(seq![outer@] + seq![inner@] =~= path);
        assert(seq![inner@] + Seq::<Seq<char>>::empty() =~= seq![inner@]);
    }
    match member(document, outer) {
        Some(section) => {
            let ghost section_leaves = string_leaves(*section);
            match member(section, inner) {
                Some(entry) => {
                    let ghost entry_leaves = string_leaves(*entry);
                    assert(entry_leaves.contains_key(Seq::empty()) == section_leaves.contains_key(
                        seq![inner@],
                    ));
                    assert(section_leaves.contains_key(seq![inner@]) == leaves.contains_key(path));
                    match as_text(entry) {
                        Some(s) => Some(s.to_owned()),
                        None => None,
                    }
                },
                None => {
                    assert(!below(section_leaves, inner@).contains_key(Seq::empty()));
                    assert(section_leaves.contains_key(seq![inner@]) == leaves.contains_key(path));
                    None
                },
            }
        },
        None => {
            assert(!below(leaves, outer@).contains_key(seq![inner@]));
            None
        },
    }
}

/// The direct asset URL that `document` names, if it names one.
pub fn direct_asset_url(document: &serde_json::Value) -> (url: Option<String>)
    ensures
        url.deep_view() == asset_url_in(string_leaves(*document)),
{
    let primary = nested_text(document, "files", "download");
    let fallback = nested_text(document, "downloads", "universal");
    first_present(primary, fallback)
}

/// Parses a reply body and looks up the direct asset URL in it.
///
/// Fails exactly when the body is no JSON document.
pub fn asset_url_of_body(body: &[u8]) -> (result: Result<Option<String>, MalformedDocument>)
    ensures
        result is Ok <==> document_leaves(body@) is Some,
        result matches Ok(url) ==> url.deep_view() == asset_url_in(document_leaves(body@)->0),
{
    match parse_document(body) {
        Ok(document) => Ok(direct_asset_url(&document)),
        Err(error) => Err(MalformedDocument { detail: describe(&error) }),
    }
}

} // verus!
