//! The commands of the program and the options they give to a run.

use vstd::prelude::*;
use crate::config::Configuration;
use crate::download::DownloadArgs;
use crate::metadata::MetadataArgs;
use crate::set_dates::SetDatesArgs;

verus! {

broadcast use vstd::string::group_string_axioms;

/// The arguments of the program.
#[derive(Debug)]
pub struct Args {
    /// Whether to log instead of showing progress.
    pub log: bool,
    pub command: Command,
}

/// What the program is asked to do.
#[derive(Debug)]
pub enum Command {
    /// Gather the metadata of the creator's posts.
    Metadata,
    /// Download the media that is not downloaded yet.
    Download { dry_run: bool },
    /// Put every link back to `Pending`.
    ResetDownloads,
    /// Copy the database to a backup.
    BackupDatabase,
    /// Print how many links there are by status.
    Report,
    /// Move the files to where the current patterns put them.
    Rename { dry_run: bool },
    /// Spread dates between `start` and `end` over the posts.
    SetDates { start: String, end: String },
}

/// The options of the download that a command asks for: the configured
/// patterns and directory; progress is shown unless the program logs; the
/// run stops at the first failed fetch.
pub fn download_args(configuration: &Configuration, dry_run: bool, log: bool) -> (args:
    DownloadArgs)
    ensures
        args.filename_pattern@ == configuration.patterns(),
        args.path@ == configuration.directory(),
        args.dry_run == dry_run,
        args.progress == !log,
        args.fail_fast,
{
    DownloadArgs {
        filename_pattern: configuration.filename_pattern(),
        path: configuration.download_directory().to_owned(),
        dry_run,
        progress: !log,
        fail_fast: true,
    }
}

/// The options of the harvest that a command asks for.
pub fn metadata_args(configuration: &Configuration) -> (args: MetadataArgs)
    ensures
        args.creator_id == configuration.creator_id,
        args.creator_name@ == configuration.creator_name@,
        args.cookie@ == configuration.cookie@,
{
    MetadataArgs {
        creator_id: configuration.creator_id,
        creator_name: configuration.creator_name.clone(),
        cookie: configuration.cookie.clone(),
    }
}

/// The range that a command to set dates gives.
pub fn set_dates_args(start: String, end: String) -> (args: SetDatesArgs)
    ensures
        args.start@ == start@,
        args.end@ == end@,
{
    SetDatesArgs { start, end }
}

/// The file name of a backup of the database made at `timestamp`.
pub fn backup_name(timestamp: &str) -> (name: String)
    ensures
        name@ == "hutt."@ + timestamp@ + ".sqlite3"@,
{
    "hutt.".to_owned().concat(timestamp).concat(".sqlite3")
}

} // verus!
