//! Where the configuration and the store are kept: files in the directories
//! the platform gives this application.

use vstd::prelude::*;
use directories::ProjectDirs;
use std::path::PathBuf;

verus! {

/// The directories the platform gives an application.
#[verifier::external_type_specification]
#[verifier::external_body]
pub struct ExProjectDirs(directories::ProjectDirs);

/// An owned file system path.
#[verifier::external_type_specification]
#[verifier::external_body]
pub struct ExPathBuf(std::path::PathBuf);

/// The directories the platform gives an application, with the names the
/// application was asked for under.
pub struct AppDirs {
    pub dirs: ProjectDirs,
    pub qualifier: String,
    pub organization: String,
    pub application: String,
}

/// A path to a file, with the file name that was joined onto its directory.
pub struct AppFile {
    pub path: PathBuf,
    pub name: String,
}

/// The directories of an application (`directories::ProjectDirs::from`),
/// with the names they were asked for under.
///
/// Trusted: the contract claims only that the names recorded are the
/// arguments handed to the call. Whether the platform gives directories
/// depends on the environment (whether a home directory can be found), and
/// is left unsaid.
#[verifier::external_body]
fn project_dirs_from(qualifier: &str, organization: &str, application: &str) -> (r: Option<AppDirs>)
    ensures
        r matches Some(d) ==> d.qualifier@ == qualifier@ && d.organization@ == organization@
            && d.application@ == application@,
{
    match ProjectDirs::from(qualifier, organization, application) {
        Some(dirs) => Some(AppDirs {
            dirs,
            qualifier: qualifier.to_owned(),
            organization: organization.to_owned(),
            application: application.to_owned(),
        }),
        None => None,
    }
}

/// The configuration directory of `dirs` (`ProjectDirs::config_dir`), as an
/// owned path.
///
/// Trusted, with nothing claimed: the path is platform-dependent.
#[verifier::external_body]
fn config_dir_of(dirs: &AppDirs) -> PathBuf {
    dirs.dirs.config_dir().to_path_buf()
}

/// The state directory of `dirs` (`ProjectDirs::state_dir`), as an owned
/// path; the platform may have none.
///
/// Trusted, with nothing claimed: whether there is one, and where, is
/// platform-dependent.
#[verifier::external_body]
fn state_dir_of(dirs: &AppDirs) -> Option<PathBuf> {
    match dirs.dirs.state_dir() {
        Some(p) => Some(p.to_path_buf()),
        None => None,
    }
}

/// File `name` inside directory `dir` (`Path::join`), with the name joined.
///
/// Trusted: the contract claims only that the name recorded is the one
/// handed to the call; how paths are joined is platform-dependent and left
/// unsaid.
#[verifier::external_body]
fn path_join(dir: &PathBuf, name: &str) -> (r: AppFile)
    ensures
        r.name@ == name@,
{
    AppFile { path: dir.join(name), name: name.to_owned() }
}

/// Why a path could not be found.
#[derive(Debug, Clone, Copy, PartialEq, Eq, Structural)]
pub enum PathError {
    /// The platform gives the application no directories.
    NoProjectDirs,
    /// The platform has no state directory.
    NoStateDir,
}

/// The text of a path error.
pub open spec fn path_error_text(e: PathError) -> Seq<char> {
    match e {
        PathError::NoProjectDirs => "failed to parse project directories"@,
        PathError::NoStateDir => "failed to locate state directory"@,
    }
}

impl PathError {
    /// What the error says.
    pub fn message(&self) -> (m: String)
        ensures
            m@ == path_error_text(*self),
    {
        match self {
            PathError::NoProjectDirs => "failed to parse project directories".to_owned(),
            PathError::NoStateDir => "failed to locate state directory".to_owned(),
        }
    }
}

/// The directories of this application (qualifier `top`, organization
/// `nugs`, application `ship`); fails when the platform gives none.
pub fn project_dirs() -> (r: Result<AppDirs, PathError>)
    ensures
        r matches Ok(d) ==> d.qualifier@ == "top"@ && d.organization@ == "nugs"@ && d.application@ == "ship"@,
        r matches Err(e) ==> e == PathError::NoProjectDirs,
{
    match project_dirs_from("top", "nugs", "ship") {
        Some(d) => Ok(d),
        None => Err(PathError::NoProjectDirs),
    }
}

/// `config.json` in the configuration directory of `dirs`.
pub fn config_file_in(dirs: &AppDirs) -> (f: AppFile)
    ensures
        f.name@ == "config.json"@,
{
    path_join(&config_dir_of(dirs), "config.json")
}

/// `state.json` in state directory `dir`; fails when there is none.
pub fn state_file_in(dir: Option<PathBuf>) -> (r: Result<AppFile, PathError>)
    ensures
        r is Err <==> dir is None,
        r matches Ok(f) ==> f.name@ == "state.json"@,
        r matches Err(e) ==> e == PathError::NoStateDir,
{
    match dir {
        Some(d) => Ok(path_join(&d, "state.json")),
        None => Err(PathError::NoStateDir),
    }
}

/// `config.json` in this application's configuration directory; fails when
/// the platform gives the application no directories.
pub fn config_path() -> (r: Result<AppFile, PathError>)
    ensures
        r matches Ok(f) ==> f.name@ == "config.json"@,
        r matches Err(e) ==> e == PathError::NoProjectDirs,
{
    let dirs = match project_dirs() {
        Ok(d) => d,
        Err(e) => {
            return Err(e);
        },
    };
    Ok(config_file_in(&dirs))
}

/// `state.json` in this application's state directory; fails when the
/// platform gives the application no directories, or has no state
/// directory.
pub fn state_path() -> (r: Result<AppFile, PathError>)
    ensures
        r matches Ok(f) ==> f.name@ == "state.json"@,
        r matches Err(e) ==> e == PathError::NoProjectDirs || e == PathError::NoStateDir,
{
    let dirs = match project_dirs() {
        Ok(d) => d,
        Err(e) => {
            return Err(e);
        },
    };
    state_file_in(state_dir_of(&dirs))
}

} // verus!
