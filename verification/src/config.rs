//! The configuration of a start, the directory of the conversion engines,
//! and the engines that a new profile can still take.

use crate::path::{join, join_paths};
use crate::text::{contains_text, texts};
use directories::ProjectDirs;
use vstd::prelude::*;

verus! {

/// The options of the command line.
pub struct ArgParser {
    /// Run the front end in the terminal.
    pub tui: bool,
    /// Define profiles instead of converting.
    pub profile_manager: bool,
    /// Leave hidden files and directories out of the walk.
    pub ignore_hidden_files: bool,
    /// Convert every matched file, whatever is noted of it.
    pub force: bool,
    /// Work on several profiles at a time.
    pub concurrent_profiles: bool,
    /// Work on several files of a profile at a time.
    pub concurrent_files: bool,
}

/// What the store needs of the configuration.
pub struct DatabaseArgs {
    pub profile_manager: bool,
}

/// What the front end needs of the configuration.
pub struct InterfaceArgs {
    pub tui: bool,
}

/// What a conversion run needs of the configuration.
pub struct ConverterArgs {
    /// Leave hidden files and directories out of the walk.
    pub hidden: bool,
    pub force: bool,
    pub concurrent_profiles: bool,
    pub concurrent_files: bool,
}

impl Default for ArgParser {
    /// Without options hidden entries are left out, nothing is forced, files
    /// are converted several at a time and profiles one after the other.
    fn default() -> (args: ArgParser)
        ensures
            !args.tui,
            !args.profile_manager,
            args.ignore_hidden_files,
            !args.force,
            !args.concurrent_profiles,
            args.concurrent_files,
    {
        ArgParser {
            tui: false,
            profile_manager: false,
            ignore_hidden_files: true,
            force: false,
            concurrent_profiles: false,
            concurrent_files: true,
        }
    }
}

impl ArgParser {
    /// The part of the configuration that the store gets.
    pub fn database_args(&self) -> (args: DatabaseArgs)
        ensures
            args.profile_manager == self.profile_manager,
    {
        DatabaseArgs { profile_manager: self.profile_manager }
    }

    /// The part of the configuration that the front end gets.
    pub fn interface_args(&self) -> (args: InterfaceArgs)
        ensures
            args.tui == self.tui,
    {
        InterfaceArgs { tui: self.tui }
    }

    /// The part of the configuration that a conversion run gets.
    pub fn converter_args(&self) -> (args: ConverterArgs)
        ensures
            args.hidden == self.ignore_hidden_files,
            args.force == self.force,
            args.concurrent_profiles == self.concurrent_profiles,
            args.concurrent_files == self.concurrent_files,
    {
        ConverterArgs {
            hidden: self.ignore_hidden_files,
            force: self.force,
            concurrent_profiles: self.concurrent_profiles,
            concurrent_files: self.concurrent_files,
        }
    }
}

impl ConverterArgs {
    /// Whether hidden entries are candidates.
    pub fn include_hidden(&self) -> (included: bool)
        ensures
            included == !self.hidden,
    {
        !self.hidden
    }
}

/// `directories::ProjectDirs`: the directories that the system gives to one
/// application. Nothing of its inside is known here.
#[verifier::external_type_specification]
#[verifier::external_body]
pub struct ExProjectDirs(ProjectDirs);

/// `ProjectDirs::from`: the directories of the application with these
/// names. What comes back depends on the system and on the environment, so
/// nothing is said of it; there is none where the system names no home
/// directory.
#[verifier::external_body]
fn project_dirs(qualifier: &str, organization: &str, application: &str) -> Option<ProjectDirs> {
    ProjectDirs::from(qualifier, organization, application)
}

/// `ProjectDirs::data_dir`, as a text; none if the path is no valid text.
/// Nothing is said of it.
#[verifier::external_body]
fn data_dir(dirs: &ProjectDirs) -> Option<String> {
    dirs.data_dir().to_str().map(|text| text.to_owned())
}

/// The directory of the conversion engines below the data directory
/// `data_dir`.
pub open spec fn converters_dir_in(data_dir: Seq<char>) -> Seq<char> {
    join(data_dir, "converters"@)
}

/// The directory of the conversion engines below the data directory
/// `data_dir`.
pub fn converters_dir(data_dir: &str) -> (dir: String)
    ensures
        dir@ == converters_dir_in(data_dir@),
{
    join_paths(data_dir, "converters")
}

/// The directory of the conversion engines: `converters` below the data
/// directory that the system gives to this application. There is none where
/// the system names no home directory.
pub fn get_converters_dir() -> (dir: Option<String>)
    ensures
        dir matches Some(d) ==> exists|data_dir: Seq<char>| d@ == converters_dir_in(data_dir),
{
    match project_dirs("com", "yuuhikaze", "tern") {
        Some(dirs) => match data_dir(&dirs) {
            Some(base) => Some(converters_dir(base.as_str())),
            None => None,
        },
        None => None,
    }
}

/// Where the engine `engine` is kept: under its name, directly in the
/// directory of the conversion engines.
pub fn engine_path(converters_dir: &str, engine: &str) -> (path: String)
    ensures
        path@ == join(converters_dir@, engine@),
{
    join_paths(converters_dir, engine)
}

/// The items of `installed` that `stored` does not hold, in their order.
pub open spec fn without(installed: Seq<Seq<char>>, stored: Seq<Seq<char>>) -> Seq<Seq<char>>
    decreases installed.len(),
{
    if installed.len() == 0 {
        Seq::empty()
    } else if stored.contains(installed.last()) {
        without(installed.drop_last(), stored)
    } else {
        without(installed.drop_last(), stored).push(installed.last())
    }
}

/// The engines that a new profile can take: those installed in the engine
/// directory that no stored profile uses yet.
pub fn available_engines(installed: &Vec<String>, stored: &Vec<String>) -> (free: Vec<String>)
    ensures
        texts(free@) == without(texts(installed@), texts(stored@)),
{
    let mut free: Vec<String> = Vec::new();
    let mut i: usize = 0;
    while i < installed.len()
        invariant
            i <= installed.len(),
            texts(free@) == without(texts(installed@).take(i as int), texts(stored@)),
        decreases installed.len() - i,
    {
        proof {
            assert(texts(installed@).take(i + 1).drop_last() =~= texts(installed@).take(i as int));
        }
        if !contains_text(stored, installed[i].as_str()) {
            let name = installed[i].clone();
            proof {
                assert(texts(free@.push(name)) =~= texts(free@).push(name@));
            }
            free.push(name);
        }
        i += 1;
    }
    assert(texts(installed@).take(i as int) =~= texts(installed@));
    free
}

} // verus!
