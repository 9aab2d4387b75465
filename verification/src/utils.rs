use std::fmt::Write;
use vstd::prelude::*;
use vstd::string::StringExecFns;
use directories::UserDirs;
use crate::utils::enums::OpenLocationType;

pub mod enums;

verus! {

/// The directory in which the store lies, below the user's directory for
/// documents.
pub open spec fn stash_below(documents: Seq<char>) -> Seq<char> {
    documents + "/stash"@
}

/// The directory in which the store lies, given the user's directory for
/// documents.
pub fn stash_directory(documents: &str) -> (stash_dir: String)
    ensures
        stash_dir@ == stash_below(documents@),
{
    let mut stash_dir = documents.to_owned();
    stash_dir.append("/stash");
    stash_dir
}

/// `directories::UserDirs`, carried from one call to the next as it is.
#[verifier::external_type_specification]
#[verifier::external_body]
pub struct ExUserDirs(UserDirs);

/// `UserDirs::new`: the user's directories as the system has them at the
/// time of the call, or `None` where the user has no home directory. What
/// comes back depends on the machine, so nothing is claimed of it.
#[verifier::external_body]
fn user_dirs() -> (dirs: Option<UserDirs>) {
    UserDirs::new()
}

/// `UserDirs::document_dir`: the user's directory for documents, as text;
/// `None` where the user has none, or where its path is not text.
#[verifier::external_body]
fn document_dir(dirs: &UserDirs) -> (documents: Option<String>) {
    match dirs.document_dir() {
        Some(path) => match path.to_str() {
            Some(text) => Some(text.to_owned()),
            None => None,
        },
        None => None,
    }
}

/// The directory in which the store lies on this machine: the one below
/// the user's directory for documents, or `None` where the user has no such
/// directory.
pub fn stash_location() -> (stash_dir: Option<String>)
    ensures
        match stash_dir {
            Some(path) => exists|documents: Seq<char>| path@ == #[trigger] stash_below(documents),
            None => true,
        },
{
    match user_dirs() {
        Some(dirs) => match document_dir(&dirs) {
            Some(documents) => Some(stash_directory(documents.as_str())),
            None => None,
        },
        None => None,
    }
}

/// What a backup copies, and where to.
#[derive(Debug, Clone, PartialEq, Eq)]
pub struct BackupPlan {
    /// The store's primary file, which is copied if it exists.
    pub source: String,
    /// The directory for backups, which is made if it is missing.
    pub directory: String,
    /// The file that the copy is written to.
    pub target: String,
}

/// The primary file of the store in the directory `stash_dir`.
pub open spec fn primary_file(stash_dir: Seq<char>) -> Seq<char> {
    stash_dir + "/bookmarks.json"@
}

/// The directory for the backups of the store in `stash_dir`.
pub open spec fn backup_directory(stash_dir: Seq<char>) -> Seq<char> {
    stash_dir + "/backups"@
}

/// The file for the backup that is taken at the time `stamp`.
pub open spec fn backup_file(stash_dir: Seq<char>, stamp: Seq<char>) -> Seq<char> {
    backup_directory(stash_dir) + "/bookmarks_"@ + stamp + ".json"@
}

/// Plans the backup of the store in `stash_dir` at the local time `stamp`,
/// which is written as year, month, day, an underscore, hour, minute,
/// second, with hyphens between the numbers. The backup is a copy of the
/// primary file under a name that holds the time.
pub fn backup_plan(stash_dir: &str, stamp: &str) -> (plan: BackupPlan)
    ensures
        plan.source@ == primary_file(stash_dir@),
        plan.directory@ == backup_directory(stash_dir@),
        plan.target@ == backup_file(stash_dir@, stamp@),
{
    let mut source = stash_dir.to_owned();
    source.append("/bookmarks.json");
    let mut directory = stash_dir.to_owned();
    directory.append("/backups");
    let mut target = directory.clone();
    target.append("/bookmarks_");
    target.append(stamp);
    target.append(".json");
    BackupPlan { source, directory, target }
}

/// `chrono::Local::now` and `DateTime::format`: the local time of the call,
/// written as `format` says. It is written where `format` asks for plain
/// date and time numbers only; else `None` may come. What the text holds
/// depends on the clock and the time zone, so nothing is claimed of it.
#[verifier::external_body]
fn local_time_text(format: &str) -> (text: Option<String>)
    ensures asks_plain_numbers(format@) ==> text is Some,
{
    let mut text = String::new();
    match write!(text, "{}", chrono::Local::now().format(format)) {
        Ok(()) => Some(text),
        Err(_) => None,
    }
}

/// Plans the backup of the store in `stash_dir` at the time of the call:
/// the plan of `backup_plan` for the local time, written as `STAMP` says.
pub fn backup_bookmarks(stash_dir: &str) -> (planned: Option<BackupPlan>)
    ensures
        match planned {
            Some(plan) => plan.source@ == primary_file(stash_dir@) && plan.directory@
                == backup_directory(stash_dir@) && exists|stamp: Seq<char>|
                plan.target@ == #[trigger] backup_file(stash_dir@, stamp),
            None => false,
        },
{
    proof {
        lemma_stamp_asks_plain_numbers();
    }
    match local_time_text(STAMP) {
        Some(stamp) => Some(backup_plan(stash_dir, stamp.as_str())),
        None => None,
    }
}

/// How the time is written in the name of a backup: year, month, day, an
/// underscore, hour, minute, second, with hyphens between the numbers.
pub const STAMP: &'static str = "%Y-%m-%d_%H-%M-%S";

/// Whether the character `c`, behind a percent sign, asks for one of the
/// numbers of a date and a time of day: year, month, day, hour, minute or
/// second.
pub open spec fn is_plain_number(c: char) -> bool {
    c == 'Y' || c == 'm' || c == 'd' || c == 'H' || c == 'M' || c == 'S'
}

/// Whether the time format `format` asks for plain numbers only: each of
/// its percent signs is followed by a character that asks for one, and
/// every other character stands for itself.
pub open spec fn asks_plain_numbers(format: Seq<char>) -> bool {
    forall|i: int|
        0 <= i < format.len() && #[trigger] format[i] == '%' ==> i + 1 < format.len()
            && is_plain_number(format[i + 1])
}

/// The format of a backup's time asks for plain numbers only.
pub proof fn lemma_stamp_asks_plain_numbers()
    ensures
        asks_plain_numbers(STAMP@),
{
    reveal_strlit("%Y-%m-%d_%H-%M-%S");
}

/// The systems on which the program knows how to show a place.
#[derive(Debug, Clone, Copy, PartialEq, Eq, Structural)]
pub enum Platform {
    Windows,
    Linux,
    MacOs,
}

/// What the file browser is asked to show.
#[derive(Debug, Clone, PartialEq, Eq)]
pub enum OpenTarget {
    /// The directory or file at this path.
    Path(String),
    /// The directory that holds the file at this path.
    ParentOf(String),
}

/// How the file browser is started.
#[derive(Debug, Clone, PartialEq, Eq)]
pub struct OpenCommand {
    /// The program to run.
    pub program: String,
    /// Whether the program is first told to select what it shows.
    pub select: bool,
    /// What it is to show.
    pub target: OpenTarget,
}

/// The program that shows a place on `platform`.
pub open spec fn browser_of(platform: Platform) -> Seq<char> {
    match platform {
        Platform::Windows => "explorer"@,
        Platform::Linux => "xdg-open"@,
        Platform::MacOs => "open"@,
    }
}

/// How to show `location` on `platform`: the store's directory `stash_dir`,
/// or a given path. For a given path, Windows shows the path itself, and
/// selects it where it is a file (`is_file`); Linux shows the directory that
/// holds it; macOS shows the path itself.
pub fn open_file_location(location: OpenLocationType, platform: Platform, stash_dir: String, is_file: bool) -> (command:
    OpenCommand)
    ensures
        command.program@ == browser_of(platform),
        command.select == (platform == Platform::Windows && location is Custom && is_file),
        match location {
            OpenLocationType::Documents => match command.target {
                OpenTarget::Path(path) => path@ == stash_dir@,
                OpenTarget::ParentOf(_) => false,
            },
            OpenLocationType::Custom(given) => match command.target {
                OpenTarget::Path(path) => platform != Platform::Linux && path@ == given@,
                OpenTarget::ParentOf(path) => platform == Platform::Linux && path@ == given@,
            },
        },
{
    let program = match platform {
        Platform::Windows => "explorer",
        Platform::Linux => "xdg-open",
        Platform::MacOs => "open",
    };
    let (select, target) = match location {
        OpenLocationType::Documents => (false, OpenTarget::Path(stash_dir)),
        OpenLocationType::Custom(given) => match platform {
            Platform::Windows => (is_file, OpenTarget::Path(given)),
            Platform::Linux => (false, OpenTarget::ParentOf(given)),
            Platform::MacOs => (false, OpenTarget::Path(given)),
        },
    };
    OpenCommand { program: program.to_owned(), select, target }
}

} // verus!
