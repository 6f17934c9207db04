//! Where the database file lives: in the per-user data directory of the
//! application where the platform has one, otherwise in the working
//! directory.

use vstd::prelude::*;
use vstd::string::*;
use directories::ProjectDirs;
use crate::text::{ends_with, lemma_text_ends_with_itself, optional_text, text_ends_with};

verus! {

/// The name of the database file.
pub const DATABASE_FILE: &'static str = "qc_analytics.sqlite";

/// The qualifier under which the platform knows the application.
pub const QUALIFIER: &'static str = "com";

/// The organization under which the platform knows the application.
pub const ORGANIZATION: &'static str = "qc";

/// The name under which the platform knows the application.
pub const APPLICATION: &'static str = "imagechecker";

/// The directories of an application, as the `directories` crate holds them.
#[verifier::external_type_specification]
#[verifier::external_body]
pub struct ExProjectDirs(ProjectDirs);

/// `directories::ProjectDirs::from` finds the directories of an application
/// from its qualifier, organization and name. It answers from the platform
/// and the environment of the process, and with `None` where no home
/// directory is known, so nothing is claimed of what it returns.
pub assume_specification[ ProjectDirs::from ](
    qualifier: &str,
    organization: &str,
    application: &str,
) -> Option<ProjectDirs>
;

/// The data directory among the directories of an application, as text.
///
/// Reads `directories::ProjectDirs::data_dir` and writes the path out. The
/// directory depends on the platform and on the environment of the process,
/// so nothing is claimed of the text.
#[verifier::external_body]
fn data_dir_of(dirs: &ProjectDirs) -> String {
    dirs.data_dir().display().to_string()
}

/// The path of a file in a directory, as `std::path::Path::join` joins the
/// two on the platform that the library is built for, written out as text.
pub uninterp spec fn spec_joined(directory: Seq<char>, file: Seq<char>) -> Seq<char>;

/// The path of a file in a directory, with the separator of the platform.
///
/// Calls `std::path::Path::join` and writes the path out. The result is
/// named, not spelled out: how the two are joined is the platform's matter.
#[verifier::external_body]
fn join_path(directory: &str, file: &str) -> (joined: String)
    ensures
        joined@ == spec_joined(directory@, file@),
{
    std::path::Path::new(directory).join(file).display().to_string()
}

/// What is made of a joined path: it is taken where it names the database
/// file, that is, ends in the name of the file; otherwise the bare file name
/// stands in for it.
pub open spec fn spec_checked(joined: Seq<char>) -> Seq<char> {
    if text_ends_with(joined, DATABASE_FILE@) {
        joined
    } else {
        DATABASE_FILE@
    }
}

/// The path of the database file: the file in the data directory of the
/// application where one is known, otherwise the file in the working
/// directory, and the bare file name where neither is known.
pub open spec fn spec_database_path(
    data_dir: Option<Seq<char>>,
    working_dir: Option<Seq<char>>,
) -> Seq<char> {
    match data_dir {
        Some(directory) => spec_checked(spec_joined(directory, DATABASE_FILE@)),
        None => match working_dir {
            Some(directory) => spec_checked(spec_joined(directory, DATABASE_FILE@)),
            None => DATABASE_FILE@,
        },
    }
}

/// Every path of the database file ends in the name of the file.
pub proof fn lemma_database_path_names_the_file(
    data_dir: Option<Seq<char>>,
    working_dir: Option<Seq<char>>,
)
    ensures
        text_ends_with(spec_database_path(data_dir, working_dir), DATABASE_FILE@),
{
    lemma_text_ends_with_itself(DATABASE_FILE@);
}

/// Takes a joined path where it names the database file, and the bare file
/// name in its place where it does not.
pub fn checked_database_path(joined: String) -> (path: String)
    ensures
        path@ == spec_checked(joined@),
{
    if ends_with(joined.as_str(), DATABASE_FILE) {
        joined
    } else {
        String::from_str(DATABASE_FILE)
    }
}

/// The path of the database file in a directory.
fn database_file_in(directory: &str) -> (path: String)
    ensures
        path@ == spec_checked(spec_joined(directory@, DATABASE_FILE@)),
{
    checked_database_path(join_path(directory, DATABASE_FILE))
}

/// The path of the database file, given the data directory of the
/// application and the working directory, as far as they are known: the file
/// in the data directory; without one, the file in the working directory;
/// and without either, the bare file name. Whichever it is, the path ends in
/// the name of the file.
pub fn database_path_in(data_dir: Option<String>, working_dir: Option<String>) -> (path: String)
    ensures
        path@ == spec_database_path(optional_text(data_dir), optional_text(working_dir)),
        text_ends_with(path@, DATABASE_FILE@),
{
    proof {
        lemma_database_path_names_the_file(optional_text(data_dir), optional_text(working_dir));
    }
    match data_dir {
        Some(directory) => database_file_in(directory.as_str()),
        None => match working_dir {
            Some(directory) => database_file_in(directory.as_str()),
            None => String::from_str(DATABASE_FILE),
        },
    }
}

/// The data directory that the platform gives to this application, if it
/// gives one. The three identifiers of the application are fixed: they are
/// the constants of this module and nothing else.
fn data_dir_for(qualifier: &str, organization: &str, application: &str) -> Option<String>
    requires
        qualifier@ == QUALIFIER@,
        organization@ == ORGANIZATION@,
        application@ == APPLICATION@,
{
    match ProjectDirs::from(qualifier, organization, application) {
        Some(dirs) => Some(data_dir_of(&dirs)),
        None => None,
    }
}

/// The path of the database file on this machine, given the working
/// directory of the process where it is known. It never fails. The file is in
/// the data directory that the platform gives to the application; where the
/// platform gives none, it is in the working directory. Which data directory
/// the platform gives is the platform's answer; whatever it is, the path is
/// the one that `database_path_in` makes of it, and ends in the name of the
/// file.
pub fn get_database_path(working_dir: Option<String>) -> (path: String)
    ensures
        text_ends_with(path@, DATABASE_FILE@),
        exists|data_dir: Option<Seq<char>>|
            path@ == #[trigger] spec_database_path(data_dir, optional_text(working_dir)),
{
    let data_dir = data_dir_for(QUALIFIER, ORGANIZATION, APPLICATION);
    let ghost found = optional_text(data_dir);
    let path = database_path_in(data_dir, working_dir);
    assert(path@ == spec_database_path(found, optional_text(working_dir)));
    path
}

} // verus!
