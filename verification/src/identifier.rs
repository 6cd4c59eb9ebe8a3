//! Extension identifiers of the form `publisher.name`.

use vstd::prelude::*;

verus! {

/// The character that separates publisher and name.
pub const SEPARATOR: char = '.';

/// `k` is the position of the only separator in `id`, and a non-empty
/// segment stands on either side of it.
pub open spec fn splits_at(id: Seq<char>, k: int) -> bool {
    &&& 0 < k < id.len() - 1
    &&& id[k] == SEPARATOR
    &&& forall|j: int| 0 <= j < id.len() && j != k ==> id[j] != SEPARATOR
}

/// `id` consists of exactly two non-empty segments around one separator.
pub open spec fn well_formed(id: Seq<char>) -> bool {
    exists|k: int| splits_at(id, k)
}

/// Position of the separator of a well-formed identifier.
pub open spec fn split_index(id: Seq<char>) -> int {
    choose|k: int| splits_at(id, k)
}

/// The segment before the separator.
pub open spec fn publisher_of(id: Seq<char>) -> Seq<char> {
    id.take(split_index(id))
}

/// The segment after the separator.
pub open spec fn name_of(id: Seq<char>) -> Seq<char> {
    id.skip(split_index(id) + 1)
}

/// No separator occurs in `s`.
pub open spec fn separator_free(s: Seq<char>) -> bool {
    forall|i: int| 0 <= i < s.len() ==> s[i] != SEPARATOR
}

/// `publisher`, a separator and `name`, in this order.
pub open spec fn joined(publisher: Seq<char>, name: Seq<char>) -> Seq<char> {
    publisher + seq![SEPARATOR] + name
}

/// An identifier has at most one split position.
pub proof fn lemma_split_unique(id: Seq<char>, k1: int, k2: int)
    requires
        splits_at(id, k1),
        splits_at(id, k2),
    ensures
        k1 == k2,
{
}

/// The two segments of a parsed identifier.
#[derive(Clone, Debug, PartialEq, Eq)]
pub struct IdentifierParts {
    pub publisher: String,
    pub name: String,
}

/// Splits `identifier` into publisher and name.
///
/// Succeeds exactly on well-formed identifiers.
pub fn split_identifier(identifier: &str) -> (parts: Option<IdentifierParts>)
    ensures
        parts is Some <==> well_formed(identifier@),
        parts matches Some(p) ==> p.publisher@ == publisher_of(identifier@) && p.name@ == name_of(
            identifier@,
        ),
{
    broadcast use vstd::string::axiom_spec_iter;

    let length = identifier.unicode_len();
    let mut position: usize = 0;
    let mut separator: Option<usize> = None;
    let mut repeated = false;
    for c in it: identifier.chars()
        invariant
            it.seq() == identifier@,
            length == identifier@.len(),
            position == it.index(),
            separator is None ==> !repeated && forall|j: int|
                0 <= j < position ==> identifier@[j] != SEPARATOR,
            separator matches Some(k) ==> {
                &&& k < position
                &&& identifier@[k as int] == SEPARATOR
                &&& forall|j: int| 0 <= j < k ==> identifier@[j] != SEPARATOR
                &&& !repeated ==> forall|j: int|
                    k < j < position ==> identifier@[j] != SEPARATOR
                &&& repeated ==> exists|j: int|
                    k < j < position && identifier@[j] == SEPARATOR
            },
    {
        if c == SEPARATOR {
            if separator.is_none() {
                separator = Some(position);
            } else {
                repeated = true;
            }
        }
        position += 1;
    }
    match separator {
        Some(k) => {
            if !repeated && 0 < k && k + 1 < length {
                assert(splits_at(identifier@, k as int));
                proof {
                    lemma_split_unique(identifier@, k as int, split_index(identifier@));
                }
                let publisher = identifier.substring_char(0, k).to_owned();
                let name = identifier.substring_char(k + 1, length).to_owned();
                Some(IdentifierParts { publisher, name })
            } else {
                assert forall|j: int| !splits_at(identifier@, j) by {
                    if splits_at(identifier@, j) {
                        if repeated {
                            let other = choose|m: int|
                                k < m < position && identifier@[m] == SEPARATOR;
                            assert(identifier@[other] == SEPARATOR);
                        }
                    }
                }
                None
            }
        },
        None => None,
    }
}

} // verus!
