//! Persistence of game state: where the save file lives, and what happens
//! when no place for it can be found.
//!
//! The library never decides what is saved; the game hands over its own
//! plain data. When the platform's standard save location cannot be
//! resolved, saving and loading fail with `LocationUnavailable`; nothing is
//! ever written to a fallback location such as the working directory.
use core::marker::PhantomData;
use std::path::PathBuf;
use vstd::prelude::*;

verus! {

/// A filesystem path, carried through unchanged.
#[verifier::external_type_specification]
#[verifier::external_body]
pub struct ExPathBuf(std::path::PathBuf);

/// The error `toml` gives when a value cannot be written as TOML.
#[verifier::external_type_specification]
#[verifier::external_body]
pub struct ExTomlSerError(toml::ser::Error);

/// The error `toml` gives when text cannot be read as the expected value.
#[verifier::external_type_specification]
#[verifier::external_body]
pub struct ExTomlDeError(toml::de::Error);

/// The standard directories of one application, as the `directories` crate
/// resolves them for the running platform and user.
#[verifier::external_type_specification]
#[verifier::external_body]
pub struct ExProjectDirs(directories::ProjectDirs);

/// Why saving or loading failed. A missing file (first start) and a broken
/// one are told apart, so that a game can react differently.
pub enum GutzSaveError {
    Serialize(toml::ser::Error),
    Deserialize(toml::de::Error),
    CreateDir { path: PathBuf, source: std::io::Error },
    Write { path: PathBuf, source: std::io::Error },
    Read { path: PathBuf, source: std::io::Error },
    /// The platform's standard save location could not be determined. There
    /// is deliberately no fallback: saving is unavailable, the game goes on.
    LocationUnavailable,
}

/// The project path fragment that the application directories of the
/// given qualifier, organization and application are built from, as
/// `directories::ProjectDirs::from` derives it on this platform.
pub uninterp spec fn project_path_for(
    qualifier: Seq<char>,
    organization: Seq<char>,
    application: Seq<char>,
) -> PathBuf;

/// The project path fragment that a resolved set of application directories
/// was built from (what `directories::ProjectDirs::project_path` returns).
pub uninterp spec fn project_path_of(dirs: directories::ProjectDirs) -> PathBuf;

/// `directories::ProjectDirs::from`: the application's standard directories,
/// or `None` when they cannot be determined (for instance without a home
/// directory). Whether they are found depends on the environment, so that
/// is not stated; directories that are found are those of the three names
/// handed over: their project path is derived from those names alone.
#[verifier::external_body]
fn project_dirs(qualifier: &str, organization: &str, application: &str) -> (r: Option<
    directories::ProjectDirs,
>)
    ensures
        r matches Some(d) ==> project_path_of(d) == project_path_for(
            qualifier@,
            organization@,
            application@,
        ),
{
    directories::ProjectDirs::from(qualifier, organization, application)
}

/// The data directory that a resolved set of application directories holds
/// (what `directories::ProjectDirs::data_dir` returns for it).
pub uninterp spec fn data_dir_of(dirs: directories::ProjectDirs) -> PathBuf;

/// `file_name` under `dir`, as `Path::join` forms it.
pub uninterp spec fn joined(dir: PathBuf, file_name: Seq<char>) -> PathBuf;

/// `directories::ProjectDirs::data_dir`: the data directory held in `dirs`,
/// as an owned path. The getter returns the same stored path on every call.
#[verifier::external_body]
fn data_dir(dirs: &directories::ProjectDirs) -> (r: PathBuf)
    ensures
        r == data_dir_of(*dirs),
{
    dirs.data_dir().to_path_buf()
}

/// `Path::join`: `file_name` under `dir`. The result is a function of the
/// two arguments alone; the platform's path rules that form it are not
/// written out here, only named.
#[verifier::external_body]
fn join_path(dir: &PathBuf, file_name: &str) -> (r: PathBuf)
    ensures
        r == joined(*dir, file_name@),
{
    dir.join(file_name)
}

/// Saving and loading one kind of game data `T`, at one place.
pub struct GutzSavePlugin<T> {
    path: Option<PathBuf>,
    _marker: PhantomData<T>,
}

impl<T> GutzSavePlugin<T> {
    /// The save location, if one is known.
    pub closed spec fn spec_path(&self) -> Option<PathBuf> {
        self.path
    }

    /// Saves exactly at `path`. For tests and special setups; games use
    /// [`Self::standard_location`].
    pub fn new(path: PathBuf) -> (r: Self)
        ensures
            r.spec_path() == Some(path),
    {
        GutzSavePlugin { path: Some(path), _marker: PhantomData }
    }

    /// Saves as `file_name` in the platform's standard data directory for
    /// the application. When that directory cannot be determined, the
    /// plugin has no location and every save or load fails with
    /// `LocationUnavailable`.
    pub fn standard_location(
        qualifier: &str,
        organization: &str,
        application: &str,
        file_name: &str,
    ) -> (r: Self)
        ensures
            r.spec_path() matches Some(p) ==> exists|d: directories::ProjectDirs|
                project_path_of(d) == project_path_for(qualifier@, organization@, application@)
                    && p == #[trigger] joined(data_dir_of(d), file_name@),
    {
        let dirs = project_dirs(qualifier, organization, application);
        Self::in_project_dirs(dirs, file_name)
    }

    /// Saves as `file_name` in the data directory of `dirs`, as resolved for
    /// the application; without resolved directories there is no location.
    pub fn in_project_dirs(dirs: Option<directories::ProjectDirs>, file_name: &str) -> (r: Self)
        ensures
            r.spec_path() == match dirs {
                Some(d) => Some(joined(data_dir_of(d), file_name@)),
                None => None,
            },
    {
        let path = match dirs {
            Some(dirs) => Some(join_path(&data_dir(&dirs), file_name)),
            None => None,
        };
        GutzSavePlugin { path, _marker: PhantomData }
    }

    /// The save location, if one is known.
    pub fn path(&self) -> (r: Option<&PathBuf>)
        ensures
            r is Some == self.spec_path() is Some,
            r matches Some(p) ==> self.spec_path() == Some(*p),
    {
        match &self.path {
            Some(p) => Some(p),
            None => None,
        }
    }
}

/// Where a save or load request goes: the known location, or
/// `LocationUnavailable` when none is known. There is no fallback.
pub fn resolve_save_path(path: &Option<PathBuf>) -> (r: Result<&PathBuf, GutzSaveError>)
    ensures
        match r {
            Ok(p) => *path == Some(*p),
            Err(e) => path is None && e is LocationUnavailable,
        },
{
    match path {
        Some(p) => Ok(p),
        None => Err(GutzSaveError::LocationUnavailable),
    }
}

/// Several load requests in one frame all read the same file, so the file
/// is read once when there was at least one.
pub fn load_needed(requests: usize) -> (r: bool)
    ensures
        r == (requests > 0),
{
    requests > 0
}

} // verus!
