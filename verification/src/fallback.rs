//! Download locations on the secondary registry, built from the identifier
//! alone.

use vstd::prelude::*;
use crate::identifier::{
    joined, lemma_split_unique, name_of, publisher_of, separator_free, split_identifier,
    split_index, splits_at, well_formed, SEPARATOR,
};
use crate::text::{replace_char, replaced};

verus! {

/// The character that stands for the separator in a file name.
pub const FILE_NAME_JOINER: char = '-';

/// The characters of an optional string slice.
pub open spec fn text_of(s: Option<&str>) -> Option<Seq<char>> {
    match s {
        Some(t) => Some(t@),
        None => None,
    }
}

/// The file name an asset gets when none is asked for: the identifier with
/// its separator turned into a hyphen, and the asset extension.
pub open spec fn default_file_name(id: Seq<char>) -> Seq<char> {
    replaced(id, SEPARATOR, FILE_NAME_JOINER) + ".vsix"@
}

/// The page of an extension on the secondary registry.
pub open spec fn marketplace_url(publisher: Seq<char>, name: Seq<char>) -> Seq<char> {
    "https://marketplace.visualstudio.com/items/"@ + publisher + seq![SEPARATOR] + name
}

/// The asset-by-name endpoint of the secondary registry for one version of
/// an extension.
pub open spec fn direct_download_url(
    publisher: Seq<char>,
    name: Seq<char>,
    version: Seq<char>,
) -> Seq<char> {
    "https://"@ + publisher + ".gallery.vsassets.io/_apis/public/gallery/publisher/"@ + publisher
        + "/extension/"@ + name + "/"@ + version
        + "/assetbyname/Microsoft.VisualStudio.Services.VSIXPackage"@
}

/// The version asked for, or the token for the newest one.
pub open spec fn version_or_latest(version: Option<Seq<char>>) -> Seq<char> {
    match version {
        Some(v) => v,
        None => "latest"@,
    }
}

/// Where and under which name an extension is fetched from the secondary
/// registry.
#[derive(Clone, Debug, PartialEq, Eq)]
pub struct FallbackInfo {
    pub marketplace_url: String,
    pub direct_download_url: String,
    pub file_name: String,
}

/// The mathematical content of a [`FallbackInfo`].
pub ghost struct FallbackModel {
    pub marketplace_url: Seq<char>,
    pub direct_download_url: Seq<char>,
    pub file_name: Seq<char>,
}

impl View for FallbackInfo {
    type V = FallbackModel;

    open spec fn view(&self) -> FallbackModel {
        FallbackModel {
            marketplace_url: self.marketplace_url@,
            direct_download_url: self.direct_download_url@,
            file_name: self.file_name@,
        }
    }
}

/// What [`synthesize`] yields for a well-formed identifier.
pub open spec fn synthesized(
    id: Seq<char>,
    version: Option<Seq<char>>,
    file_name_override: Option<Seq<char>>,
) -> FallbackModel {
    FallbackModel {
        marketplace_url: marketplace_url(publisher_of(id), name_of(id)),
        direct_download_url: direct_download_url(
            publisher_of(id),
            name_of(id),
            version_or_latest(version),
        ),
        file_name: match file_name_override {
            Some(name) => name,
            None => default_file_name(id),
        },
    }
}

/// An identifier that is not of the form `publisher.name`.
#[derive(Clone, Debug, PartialEq, Eq)]
pub struct InvalidIdentifier {
    pub identifier: String,
}

/// The default asset file name of `identifier`.
pub fn file_name_for(identifier: &str) -> (name: String)
    ensures
        name@ == default_file_name(identifier@),
{
    let mut name = replace_char(identifier, SEPARATOR, FILE_NAME_JOINER);
    name.append(".vsix");
    name
}

/// Builds the secondary-registry locations of `identifier` without asking
/// the registry.
///
/// Fails exactly when the identifier is not well formed.
pub fn synthesize(
    identifier: &str,
    version: Option<&str>,
    file_name_override: Option<&str>,
) -> (result: Result<FallbackInfo, InvalidIdentifier>)
    ensures
        result is Ok <==> well_formed(identifier@),
        result matches Ok(info) ==> info@ == synthesized(
            identifier@,
            text_of(version),
            text_of(file_name_override),
        ),
        result matches Err(e) ==> e.identifier@ == identifier@,
{
    let parts = match split_identifier(identifier) {
        Some(parts) => parts,
        None => {
            return Err(InvalidIdentifier { identifier: identifier.to_owned() });
        },
    };
    let publisher = parts.publisher.as_str();
    let name = parts.name.as_str();

    let file_name = match file_name_override {
        Some(given) => given.to_owned(),
        None => file_name_for(identifier),
    };

    let mut marketplace_url = "https://marketplace.visualstudio.com/items/".to_owned();
    marketplace_url.append(publisher);
    marketplace_url.push(SEPARATOR);
    marketplace_url.append(name);

    let version_text = match version {
        Some(v) => v,
        None => "latest",
    };
    let mut direct_download_url = "https://".to_owned();
    direct_download_url.append(publisher);
    direct_download_url.append(".gallery.vsassets.io/_apis/public/gallery/publisher/");
    direct_download_url.append(publisher);
    direct_download_url.append("/extension/");
    direct_download_url.append(name);
    direct_download_url.append("/");
    direct_download_url.append(version_text);
    direct_download_url.append("/assetbyname/Microsoft.VisualStudio.Services.VSIXPackage");

    assert(marketplace_url@ =~= crate::fallback::marketplace_url(publisher@, name@));
    Ok(FallbackInfo { marketplace_url, direct_download_url, file_name })
}

/// A well-formed identifier is its publisher, the separator and its name.
pub proof fn lemma_segments_rejoin(id: Seq<char>)
    requires
        well_formed(id),
    ensures
        joined(publisher_of(id), name_of(id)) == id,
        publisher_of(id).len() > 0,
        name_of(id).len() > 0,
        separator_free(publisher_of(id)),
        separator_free(name_of(id)),
{
    assert(joined(publisher_of(id), name_of(id)) =~= id);
}

/// For non-empty `publisher` and `name` without a separator, `publisher.name`
/// is well formed, splits back into the two, and its default file name is
/// `publisher-name.vsix`.
pub proof fn lemma_default_file_name(publisher: Seq<char>, name: Seq<char>)
    requires
        publisher.len() > 0,
        name.len() > 0,
        separator_free(publisher),
        separator_free(name),
    ensures
        well_formed(joined(publisher, name)),
        publisher_of(joined(publisher, name)) == publisher,
        name_of(joined(publisher, name)) == name,
        default_file_name(joined(publisher, name)) == publisher + seq![FILE_NAME_JOINER] + name
            + ".vsix"@,
        forall|version: Option<Seq<char>>|
            (#[trigger] synthesized(joined(publisher, name), version, None)).file_name
                == publisher + seq![FILE_NAME_JOINER] + name + ".vsix"@,
{
    let id = joined(publisher, name);
    let k = publisher.len() as int;
    assert(splits_at(id, k));
    lemma_split_unique(id, k, split_index(id));
    assert(publisher_of(id) =~= publisher);
    assert(name_of(id) =~= name);
    assert(replaced(id, SEPARATOR, FILE_NAME_JOINER) =~= publisher + seq![FILE_NAME_JOINER]
        + name);
}

} // verus!
