//! The preparation of a fallback download: the ledger record of an attempt
//! that is about to start.

use vstd::prelude::*;
use crate::fallback::{
    file_name_for, synthesize, synthesized, text_of, FallbackInfo, FallbackModel,
    InvalidIdentifier,
};
use crate::host::{current_timestamp, join_path};
use crate::identifier::well_formed;
use crate::ledger::{DownloadRecord, RecordModel};
use crate::lookup::UnavailableExtension;

verus! {

/// The record of a download attempt that is about to start.
pub open spec fn attempt(
    identifier: Seq<char>,
    info: FallbackModel,
    version: Option<Seq<char>>,
    destination_path: Seq<char>,
    now: Seq<char>,
) -> RecordModel {
    RecordModel {
        identifier,
        lookup_url: info.marketplace_url,
        resolved_asset_url: info.direct_download_url,
        destination_path,
        file_name: info.file_name,
        version,
        last_updated: now,
        succeeded: false,
    }
}

/// `record` is the record of an attempt that is about to start, whatever its
/// destination path and its time of writing are.
pub open spec fn starts_attempt(
    record: RecordModel,
    identifier: Seq<char>,
    info: FallbackModel,
    version: Option<Seq<char>>,
) -> bool {
    record == attempt(identifier, info, version, record.destination_path, record.last_updated)
}

/// The record of a download attempt that is about to start: the locations
/// from `info`, written at `now`, not yet succeeded.
pub fn attempt_record(
    identifier: &str,
    info: FallbackInfo,
    version: Option<&str>,
    destination_path: String,
    now: String,
) -> (record: DownloadRecord)
    ensures
        record@ == attempt(identifier@, info@, text_of(version), destination_path@, now@),
{
    DownloadRecord {
        identifier: identifier.to_owned(),
        lookup_url: info.marketplace_url,
        resolved_asset_url: info.direct_download_url,
        destination_path,
        file_name: info.file_name,
        version: match version {
            Some(v) => Some(v.to_owned()),
            None => None,
        },
        last_updated: now,
        succeeded: false,
    }
}

/// Prepares the fallback download of `identifier` into `output_dir`: the
/// record to put into the ledger before the transfer starts.
///
/// Fails exactly when the identifier is not well formed. The destination
/// path is the file name joined to `output_dir` in the host's path syntax,
/// and the record is written at the current time.
pub fn plan_download(
    identifier: &str,
    version: Option<&str>,
    file_name_override: Option<&str>,
    output_dir: &str,
) -> (result: Result<DownloadRecord, InvalidIdentifier>)
    ensures
        result is Ok <==> well_formed(identifier@),
        result matches Ok(record) ==> starts_attempt(
            record@,
            identifier@,
            synthesized(identifier@, text_of(version), text_of(file_name_override)),
            text_of(version),
        ),
        result matches Err(e) ==> e.identifier@ == identifier@,
{
    match synthesize(identifier, version, file_name_override) {
        Ok(info) => {
            let destination_path = join_path(output_dir, info.file_name.as_str());
            let now = current_timestamp();
            Ok(attempt_record(identifier, info, version, destination_path, now))
        },
        Err(e) => Err(e),
    }
}

/// Prepares the fallback download of an unavailable extension: the newest
/// version, under the default file name.
pub fn plan_fallback(extension: &UnavailableExtension, output_dir: &str) -> (result: Result<
    DownloadRecord,
    InvalidIdentifier,
>)
    ensures
        result is Ok <==> well_formed(extension@.identifier),
        result matches Ok(record) ==> starts_attempt(
            record@,
            extension@.identifier,
            synthesized(extension@.identifier, None, None),
            None,
        ),
        result matches Err(e) ==> e.identifier@ == extension@.identifier,
{
    let identifier = extension.identifier.as_str();
    let file_name = file_name_for(identifier);
    plan_download(identifier, None, Some(file_name.as_str()), output_dir)
}

} // verus!
