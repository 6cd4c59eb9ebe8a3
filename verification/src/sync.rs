//! The decisions around the lookups of a run: which declared extensions are
//! looked up, and whether the fallback downloads start afterwards.

use vstd::prelude::*;
use crate::lookup::{DeclaredExtension, DeclaredModel};

verus! {

/// The models of a sequence of declared extensions, in the same order.
pub open spec fn declared_models(declared: Seq<DeclaredExtension>) -> Seq<DeclaredModel> {
    declared.map_values(|d: DeclaredExtension| d@)
}

/// The declared extensions that are looked up: those with a non-empty
/// identifier, in the order of declaration.
pub open spec fn to_look_up(declared: Seq<DeclaredModel>) -> Seq<DeclaredModel> {
    declared.filter(|d: DeclaredModel| d.identifier.len() > 0)
}

/// Drops the declared extensions without an identifier and keeps the others
/// in their order.
pub fn pending_lookups(declared: Vec<DeclaredExtension>) -> (pending: Vec<DeclaredExtension>)
    ensures
        declared_models(pending@) == to_look_up(declared_models(declared@)),
{
    let ghost all = declared_models(declared@);
    let ghost named = |d: DeclaredModel| d.identifier.len() > 0;
    let mut pending: Vec<DeclaredExtension> = Vec::new();
    proof {
        assert(all.take(0).filter(named) =~= Seq::empty()) by {
            reveal(Seq::filter);
        }
        assert(declared_models(pending@) =~= Seq::empty());
    }
    for extension in it: declared.into_iter()
        invariant
            it.seq() == declared@,
            all == declared_models(declared@),
            named == |d: DeclaredModel| d.identifier.len() > 0,
            declared_models(pending@) == all.take(it.index()).filter(named),
    {
        proof {
            all.take(it.index()).lemma_filter_push(extension@, named);
            assert(all.take(it.index() + 1) =~= all.take(it.index()).push(extension@));
        }
        if !extension.identifier.as_str().is_empty() {
            let ghost before = pending@;
            pending.push(extension);
            assert(declared_models(pending@) =~= declared_models(before).push(extension@));
        }
    }
    proof {
        assert(all.take(all.len() as int) =~= all);
    }
    pending
}

/// What follows the lookups.
#[derive(Clone, Copy, Debug, PartialEq, Eq, Structural)]
pub enum NextStep {
    /// Every extension is available: there is nothing to download.
    Finish,
    /// The fallback downloads start at once.
    Download,
    /// The user is asked before the fallback downloads start.
    Confirm,
}

/// Decides what follows the lookups, from the number of unavailable
/// extensions and the automatic-download setting.
pub fn next_step(unavailable: usize, auto_download: bool) -> (step: NextStep)
    ensures
        step == if unavailable == 0 {
            NextStep::Finish
        } else if auto_download {
            NextStep::Download
        } else {
            NextStep::Confirm
        },
{
    if unavailable == 0 {
        NextStep::Finish
    } else if auto_download {
        NextStep::Download
    } else {
        NextStep::Confirm
    }
}

/// `c` has the Unicode property `White_Space`.
pub open spec fn is_white_space(c: char) -> bool {
    let u = c as u32;
    ||| 0x09 <= u <= 0x0D
    ||| u == 0x20
    ||| u == 0x85
    ||| u == 0xA0
    ||| u == 0x1680
    ||| 0x2000 <= u <= 0x200A
    ||| u == 0x2028
    ||| u == 0x2029
    ||| u == 0x202F
    ||| u == 0x205F
    ||| u == 0x3000
}

/// `answer` is a single `y` or `Y` with nothing but white space around it.
pub open spec fn is_affirmative(answer: Seq<char>) -> bool {
    exists|i: int|
        {
            &&& 0 <= i < answer.len()
            &&& (#[trigger] answer[i] == 'y' || answer[i] == 'Y')
            &&& forall|j: int| 0 <= j < answer.len() && j != i ==> is_white_space(answer[j])
        }
}

/// Whether a character has the Unicode property `White_Space`.
pub fn white_space(c: char) -> (white: bool)
    ensures
        white == is_white_space(c),
{
    let u = c as u32;
    (0x09 <= u && u <= 0x0D) || u == 0x20 || u == 0x85 || u == 0xA0 || u == 0x1680 || (0x2000 <= u
        && u <= 0x200A) || u == 0x2028 || u == 0x2029 || u == 0x202F || u == 0x205F || u == 0x3000
}

/// Whether the user's answer to the confirmation prompt allows the
/// downloads: a `y` in either case, white space around it set aside.
pub fn confirms(answer: &str) -> (yes: bool)
    ensures
        yes == is_affirmative(answer@),
{
    broadcast use vstd::string::axiom_spec_iter;

    let mut letters: u8 = 0;
    let mut others = false;
    let ghost mut at: int = 0;
    for c in it: answer.chars()
        invariant
            it.seq() == answer@,
            letters <= 2,
            !others ==> forall|j: int|
                0 <= j < it.index() ==> is_white_space(answer@[j]) || answer@[j] == 'y'
                    || answer@[j] == 'Y',
            others ==> exists|j: int|
                0 <= j < it.index() && !is_white_space(answer@[j]) && answer@[j] != 'y'
                    && answer@[j] != 'Y',
            letters == 0 ==> forall|j: int|
                0 <= j < it.index() ==> answer@[j] != 'y' && answer@[j] != 'Y',
            letters == 1 ==> 0 <= at < it.index() && (answer@[at] == 'y' || answer@[at] == 'Y')
                && forall|j: int|
                0 <= j < it.index() && j != at ==> answer@[j] != 'y' && answer@[j] != 'Y',
            letters == 2 ==> exists|j: int, k: int|
                0 <= j < k < it.index() && (answer@[j] == 'y' || answer@[j] == 'Y') && (answer@[k]
                    == 'y' || answer@[k] == 'Y'),
    {
        if c == 'y' || c == 'Y' {
            if letters == 0 {
                proof {
                    at = it.index();
                }
                letters = 1;
            } else {
                letters = 2;
            }
        } else if !white_space(c) {
            others = true;
        }
    }
    letters == 1 && !others
}

} // verus!
