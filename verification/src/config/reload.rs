//! Taking over a changed configuration file.

use vstd::prelude::*;

use crate::config::document::{blank, ini_error, ini_sections, parse_ini};
use crate::config::encoding::{decode, decoded, DecodeError, IniEncoding};
use crate::config::schema::{is_loaded, Config};
use crate::config::storage::{check_size, same_bytes, LoadError, LoadedConfig, MAX_INI_BYTES};

verus! {

/// A version of the configuration file that may be taken over.
#[derive(Debug, PartialEq, Eq)]
pub struct ConfigCandidate {
    pub generation: u64,
    pub contents: Vec<u8>,
}

impl ConfigCandidate {
    /// Whether the file still holds the version.
    pub fn matches_disk(&self, contents: &[u8]) -> (r: bool)
        ensures
            r == (contents@ == self.contents@),
    {
        same_bytes(contents, self.contents.as_slice())
    }
}

/// Why a version is not taken over.
#[derive(Debug)]
pub enum PreflightError {
    /// A recovery file exists.
    Recovery,
    /// The version is no valid configuration.
    Load(LoadError),
    /// The log would be written to the configuration.
    LogDestination,
    /// The log cannot be written; the version is tried again later.
    Log,
    /// The file holds another version by now.
    Outdated,
}

/// Decides whether a version is taken over: `destination` says whether its log may be written
/// where it says, `writable` whether it can, `disk` is what the file holds now. Nothing is
/// written.
pub fn preflight(
    candidate: &ConfigCandidate,
    recovery: bool,
    destination: bool,
    writable: bool,
    disk: &[u8],
) -> (r: Result<LoadedConfig, PreflightError>)
    ensures
        match r {
            Ok(loaded) => !recovery && destination && writable && is_snapshot(
                Ok(loaded),
                candidate.contents@,
            ) && disk@ == candidate.contents@,
            Err(PreflightError::Recovery) => recovery,
            Err(PreflightError::Load(error)) => !recovery && is_snapshot(
                Err(error),
                candidate.contents@,
            ),
            Err(PreflightError::LogDestination) => !recovery && accepted(candidate.contents@)
                && !destination,
            Err(PreflightError::Log) => !recovery && accepted(candidate.contents@) && destination
                && !writable,
            Err(PreflightError::Outdated) => !recovery && accepted(candidate.contents@)
                && destination && writable && disk@ != candidate.contents@,
        },
{
    if recovery {
        return Err(PreflightError::Recovery);
    }
    let loaded = match load_snapshot(candidate.contents.as_slice()) {
        Ok(loaded) => loaded,
        Err(error) => {
            return Err(PreflightError::Load(error));
        },
    };
    assert(accepted(candidate.contents@));
    if !destination {
        return Err(PreflightError::LogDestination);
    }
    if !writable {
        return Err(PreflightError::Log);
    }
    if !candidate.matches_disk(disk) {
        return Err(PreflightError::Outdated);
    }
    Ok(loaded)
}

/// Whether a version of the file is a valid configuration.
pub open spec fn accepted(bytes: Seq<u8>) -> bool {
    exists|loaded: LoadedConfig| is_snapshot(Ok(loaded), bytes)
}

/// Whether a result is that of reading a version of the file as it stands. The file is neither
/// completed nor written.
pub open spec fn is_snapshot(r: Result<LoadedConfig, LoadError>, bytes: Seq<u8>) -> bool {
    if bytes.len() > MAX_INI_BYTES {
        r matches Err(LoadError::Size)
    } else {
        match decoded(bytes) {
            Err(error) => r matches Err(LoadError::Decode(e)) && e == error,
            Ok((text, _)) => match ini_sections(text) {
                None => r matches Err(LoadError::Syntax(error)) && error@ == ini_error(text),
                Some(d) => if blank(d) {
                    r matches Err(LoadError::Blank)
                } else {
                    match r {
                        Ok(loaded) => is_loaded(Ok(loaded.config), d) && loaded.contents@ == bytes
                            && !loaded.migrated,
                        Err(LoadError::Config(error)) => is_loaded(Err(error), d),
                        Err(_) => false,
                    }
                },
            },
        }
    }
}

/// Reads a version of the file as it stands.
pub fn load_snapshot(bytes: &[u8]) -> (r: Result<LoadedConfig, LoadError>)
    ensures
        is_snapshot(r, bytes@),
{
    match check_size(bytes) {
        Err(error) => {
            return Err(error);
        },
        Ok(()) => {},
    }
    let text = match decode(bytes) {
        Err(error) => {
            return Err(LoadError::Decode(error));
        },
        Ok((text, _)) => text,
    };
    let document = match parse_ini(text.as_str()) {
        Err(error) => {
            return Err(LoadError::Syntax(error));
        },
        Ok(document) => document,
    };
    if document.is_blank() {
        return Err(LoadError::Blank);
    }
    match Config::load(&document) {
        Err(error) => Err(LoadError::Config(error)),
        Ok(config) => {
            let mut contents: Vec<u8> = Vec::new();
            contents.extend_from_slice(bytes);
            assert(contents@ =~= bytes@);
            Ok(LoadedConfig { config, contents, migrated: false })
        },
    }
}

/// A version of the file is read as it stands: what is loaded is the file itself, in any encoding, and
/// it has not to be written. A version of more than a megabyte and a blank one are refused.
pub proof fn versions_are_read_as_they_stand(
    r: Result<LoadedConfig, LoadError>,
    bytes: Seq<u8>,
    text: Seq<char>,
    encoding: IniEncoding,
)
    requires
        is_snapshot(r, bytes),
        bytes.len() <= 1024 * 1024,
        decoded(bytes) == Ok::<_, DecodeError>((text, encoding)),
    ensures
        r is Ok ==> r->Ok_0.contents@ == bytes && !r->Ok_0.migrated && ini_sections(text) is Some
            && is_loaded(Ok(r->Ok_0.config), ini_sections(text)->0),
        ini_sections(text) is None <==> r is Err && r->Err_0 is Syntax,
        ini_sections(text) is Some ==> (blank(ini_sections(text)->0) <==> r is Err && r->Err_0
            is Blank),
        r matches Err(LoadError::Config(error)) ==> is_loaded(Err(error), ini_sections(text)->0),
        r is Ok || r->Err_0 is Syntax || r->Err_0 is Blank || r->Err_0 is Config,
{
}

/// A version that cannot be read is refused for the first thing that is wrong with it.
pub proof fn versions_that_are_refused(r: Result<LoadedConfig, LoadError>, bytes: Seq<u8>)
    requires
        is_snapshot(r, bytes),
    ensures
        r == Err::<LoadedConfig, _>(LoadError::Size) <==> bytes.len() > 1024 * 1024,
        bytes.len() <= 1024 * 1024 && decoded(bytes) is Err ==> r == Err::<LoadedConfig, _>(
            LoadError::Decode(decoded(bytes)->Err_0),
        ),
        accepted(bytes) ==> bytes.len() <= 1024 * 1024 && decoded(bytes) is Ok,
{
}

}
