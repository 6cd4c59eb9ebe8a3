//! Resolution against the primary registry: the lookup URL of an extension,
//! the classification of the registry's reply, and the two ordered lists
//! that a run collects.

use vstd::prelude::*;
use crate::document::{asset_url_in, asset_url_of_body, document_leaves};
use crate::identifier::SEPARATOR;
use crate::status::{is_success, is_success_status};
use crate::text::{replace_char, replaced};

verus! {

/// An extension that the user declared.
#[derive(Clone, Debug, PartialEq, Eq)]
pub struct DeclaredExtension {
    /// `publisher.name`.
    pub identifier: String,
    pub external_ref: Option<String>,
}

/// The mathematical content of a [`DeclaredExtension`], and of an
/// [`UnavailableExtension`].
pub ghost struct DeclaredModel {
    pub identifier: Seq<char>,
    pub external_ref: Option<Seq<char>>,
}

impl View for DeclaredExtension {
    type V = DeclaredModel;

    open spec fn view(&self) -> DeclaredModel {
        DeclaredModel { identifier: self.identifier@, external_ref: self.external_ref.deep_view() }
    }
}

/// An extension that the primary registry offers directly.
#[derive(Clone, Debug, PartialEq, Eq)]
pub struct AvailableExtension {
    pub identifier: String,
    pub external_ref: Option<String>,
    pub direct_url: String,
}

/// The mathematical content of an [`AvailableExtension`].
pub ghost struct AvailableModel {
    pub identifier: Seq<char>,
    pub external_ref: Option<Seq<char>>,
    pub direct_url: Seq<char>,
}

impl View for AvailableExtension {
    type V = AvailableModel;

    open spec fn view(&self) -> AvailableModel {
        AvailableModel {
            identifier: self.identifier@,
            external_ref: self.external_ref.deep_view(),
            direct_url: self.direct_url@,
        }
    }
}

/// An extension that the primary registry does not offer directly.
#[derive(Clone, Debug, PartialEq, Eq)]
pub struct UnavailableExtension {
    pub identifier: String,
    pub external_ref: Option<String>,
}

impl View for UnavailableExtension {
    type V = DeclaredModel;

    open spec fn view(&self) -> DeclaredModel {
        DeclaredModel { identifier: self.identifier@, external_ref: self.external_ref.deep_view() }
    }
}

/// How the primary registry classified one declared extension.
#[derive(Clone, Debug, PartialEq, Eq)]
pub enum ResolutionOutcome {
    Available(AvailableExtension),
    Unavailable(UnavailableExtension),
}

/// The mathematical content of a [`ResolutionOutcome`].
pub ghost enum OutcomeModel {
    Available(AvailableModel),
    Unavailable(DeclaredModel),
}

impl View for ResolutionOutcome {
    type V = OutcomeModel;

    open spec fn view(&self) -> OutcomeModel {
        match *self {
            ResolutionOutcome::Available(a) => OutcomeModel::Available(a@),
            ResolutionOutcome::Unavailable(u) => OutcomeModel::Unavailable(u@),
        }
    }
}

/// What came back from one request to the primary registry.
#[derive(Clone, Debug, PartialEq, Eq)]
pub enum LookupReply {
    /// The request failed before any status arrived.
    Unreachable,
    /// The registry answered. `body` is read only under a success status and
    /// may be left empty under any other.
    Responded { status: u16, body: Vec<u8> },
}

/// A success reply of the primary registry whose body is no JSON document.
#[derive(Clone, Debug, PartialEq, Eq)]
pub struct MalformedSuccessResponse {
    /// The extension that was being resolved.
    pub identifier: String,
    /// The parser's account of what is wrong.
    pub detail: String,
}

/// The outcome for an extension of which the registry names the asset URL
/// `url`, or none.
pub open spec fn classified(extension: DeclaredModel, url: Option<Seq<char>>) -> OutcomeModel {
    match url {
        Some(direct_url) => OutcomeModel::Available(
            AvailableModel {
                identifier: extension.identifier,
                external_ref: extension.external_ref,
                direct_url,
            },
        ),
        None => OutcomeModel::Unavailable(extension),
    }
}

/// The outcome that a reply means for `extension`; `None` where the reply is
/// a success whose body is no JSON document.
pub open spec fn resolution(
    extension: DeclaredModel,
    reply: LookupReply,
) -> Option<OutcomeModel> {
    match reply {
        LookupReply::Unreachable => Some(OutcomeModel::Unavailable(extension)),
        LookupReply::Responded { status, body } => if !is_success(status) {
            Some(OutcomeModel::Unavailable(extension))
        } else {
            match document_leaves(body@) {
                Some(leaves) => Some(classified(extension, asset_url_in(leaves))),
                None => None,
            }
        },
    }
}

/// The URL under which the primary registry describes `identifier`: the API
/// base, and the identifier with its separator as a path separator.
pub open spec fn lookup_url_of(identifier: Seq<char>) -> Seq<char> {
    "https://open-vsx.org/api/"@ + replaced(identifier, SEPARATOR, '/')
}

/// The URL to ask the primary registry about `identifier`.
pub fn lookup_url(identifier: &str) -> (url: String)
    ensures
        url@ == lookup_url_of(identifier@),
{
    let mut url = "https://open-vsx.org/api/".to_owned();
    let path = replace_char(identifier, SEPARATOR, '/');
    url.append(path.as_str());
    url
}

/// A copy of an optional string.
fn copy_optional(text: &Option<String>) -> (copy: Option<String>)
    ensures
        copy.deep_view() == text.deep_view(),
{
    match text {
        Some(s) => Some(s.clone()),
        None => None,
    }
}

/// Classifies `extension` by the asset URL that the registry named, if it
/// named one.
pub fn classify(extension: &DeclaredExtension, asset_url: Option<String>) -> (outcome:
    ResolutionOutcome)
    ensures
        outcome@ == classified(extension@, asset_url.deep_view()),
{
    let identifier = extension.identifier.clone();
    let external_ref = copy_optional(&extension.external_ref);
    match asset_url {
        Some(direct_url) => ResolutionOutcome::Available(
            AvailableExtension { identifier, external_ref, direct_url },
        ),
        None => ResolutionOutcome::Unavailable(UnavailableExtension { identifier, external_ref }),
    }
}

/// Classifies `extension` by the registry's reply to its lookup.
///
/// An unreachable registry and any status outside the success class mean
/// that the extension is unavailable there. A success reply is searched for
/// the asset URL; it is an error only where its body is no JSON document.
pub fn resolve(extension: &DeclaredExtension, reply: &LookupReply) -> (result: Result<
    ResolutionOutcome,
    MalformedSuccessResponse,
>)
    ensures
        result is Ok <==> resolution(extension@, *reply) is Some,
        result matches Ok(outcome) ==> Some(outcome@) == resolution(extension@, *reply),
        result matches Err(error) ==> error.identifier@ == extension@.identifier,
{
    match reply {
        LookupReply::Unreachable => Ok(classify(extension, None)),
        LookupReply::Responded { status, body } => {
            if !is_success_status(*status) {
                Ok(classify(extension, None))
            } else {
                match asset_url_of_body(body.as_slice()) {
                    Ok(asset_url) => Ok(classify(extension, asset_url)),
                    Err(malformed) => Err(
                        MalformedSuccessResponse {
                            identifier: extension.identifier.clone(),
                            detail: malformed.detail,
                        },
                    ),
                }
            }
        },
    }
}

/// The two lists of a run: what the primary registry offers and what it does
/// not, each in the order of declaration.
#[derive(Clone, Debug, PartialEq, Eq)]
pub struct ResolutionSnapshot {
    pub available: Vec<AvailableExtension>,
    pub unavailable: Vec<UnavailableExtension>,
}

/// The mathematical content of a [`ResolutionSnapshot`].
pub ghost struct SnapshotModel {
    pub available: Seq<AvailableModel>,
    pub unavailable: Seq<DeclaredModel>,
}

impl View for ResolutionSnapshot {
    type V = SnapshotModel;

    open spec fn view(&self) -> SnapshotModel {
        SnapshotModel {
            available: self.available@.map_values(|a: AvailableExtension| a@),
            unavailable: self.unavailable@.map_values(|u: UnavailableExtension| u@),
        }
    }
}

/// The models of a sequence of outcomes, in the same order.
pub open spec fn outcome_models(outcomes: Seq<ResolutionOutcome>) -> Seq<OutcomeModel> {
    outcomes.map_values(|o: ResolutionOutcome| o@)
}

/// The available extensions among `outcomes`, in order.
pub open spec fn available_among(outcomes: Seq<OutcomeModel>) -> Seq<AvailableModel> {
    outcomes.filter_map(
        |o: OutcomeModel|
            match o {
                OutcomeModel::Available(a) => Some(a),
                OutcomeModel::Unavailable(_) => None,
            },
    )
}

/// The unavailable extensions among `outcomes`, in order.
pub open spec fn unavailable_among(outcomes: Seq<OutcomeModel>) -> Seq<DeclaredModel> {
    outcomes.filter_map(
        |o: OutcomeModel|
            match o {
                OutcomeModel::Available(_) => None,
                OutcomeModel::Unavailable(u) => Some(u),
            },
    )
}

/// The snapshot of a run with the given outcomes.
pub open spec fn partitioned(outcomes: Seq<OutcomeModel>) -> SnapshotModel {
    SnapshotModel {
        available: available_among(outcomes),
        unavailable: unavailable_among(outcomes),
    }
}

/// `snapshot` with one more outcome at the end of the list it belongs to.
pub open spec fn recorded(snapshot: SnapshotModel, outcome: OutcomeModel) -> SnapshotModel {
    match outcome {
        OutcomeModel::Available(a) => SnapshotModel {
            available: snapshot.available.push(a),
            ..snapshot
        },
        OutcomeModel::Unavailable(u) => SnapshotModel {
            unavailable: snapshot.unavailable.push(u),
            ..snapshot
        },
    }
}

impl ResolutionSnapshot {
    /// The snapshot of a run without outcomes.
    pub fn new() -> (snapshot: ResolutionSnapshot)
        ensures
            snapshot@ == partitioned(Seq::empty()),
    {
        let snapshot = ResolutionSnapshot { available: Vec::new(), unavailable: Vec::new() };
        assert(snapshot@.available =~= Seq::empty());
        assert(snapshot@.unavailable =~= Seq::empty());
        snapshot
    }

    /// Appends `outcome` to the list it belongs to.
    pub fn record(&mut self, outcome: ResolutionOutcome)
        ensures
            final(self)@ == recorded(old(self)@, outcome@),
    {
        match outcome {
            ResolutionOutcome::Available(a) => {
                self.available.push(a);
                assert(self@.available =~= old(self)@.available.push(a@));
            },
            ResolutionOutcome::Unavailable(u) => {
                self.unavailable.push(u);
                assert(self@.unavailable =~= old(self)@.unavailable.push(u@));
            },
        }
    }

    /// The snapshot of a run with the given outcomes: each list holds its
    /// extensions in the order in which they were resolved.
    pub fn from_outcomes(outcomes: Vec<ResolutionOutcome>) -> (snapshot: ResolutionSnapshot)
        ensures
            snapshot@ == partitioned(outcome_models(outcomes@)),
    {
        let ghost all = outcome_models(outcomes@);
        let mut snapshot = ResolutionSnapshot::new();
        for outcome in it: outcomes.into_iter()
            invariant
                it.seq() == outcomes@,
                all == outcome_models(outcomes@),
                snapshot@ == partitioned(all.take(it.index())),
        {
            proof {
                lemma_partition_step(all.take(it.index()), outcome@);
                assert(all.take(it.index() + 1) =~= all.take(it.index()).push(outcome@));
            }
            snapshot.record(outcome);
        }
        proof {
            assert(all.take(all.len() as int) =~= all);
        }
        snapshot
    }
}

/// Resolving one more extension appends its outcome to the list it belongs
/// to and leaves the other list as it is.
pub proof fn lemma_partition_step(outcomes: Seq<OutcomeModel>, outcome: OutcomeModel)
    ensures
        partitioned(outcomes.push(outcome)) == recorded(partitioned(outcomes), outcome),
{
    let longer = outcomes.push(outcome);
    assert(longer.drop_last() =~= outcomes);
    assert(partitioned(longer).available =~= recorded(partitioned(outcomes), outcome).available);
    assert(partitioned(longer).unavailable =~= recorded(
        partitioned(outcomes),
        outcome,
    ).unavailable);
}

/// Every outcome is in exactly one of the two lists.
pub proof fn lemma_partition_complete(outcomes: Seq<OutcomeModel>)
    ensures
        partitioned(outcomes).available.len() + partitioned(outcomes).unavailable.len()
            == outcomes.len(),
    decreases outcomes.len(),
{
    if outcomes.len() > 0 {
        lemma_partition_complete(outcomes.drop_last());
        lemma_partition_step(outcomes.drop_last(), outcomes.last());
        assert(outcomes.drop_last().push(outcomes.last()) =~= outcomes);
    }
}

} // verus!
