//! The first-generation game manifests: one TOML file per game, checked
//! for the rules the schema alone cannot say (a DOS game names its DOSBox
//! config, an Amiga game runs no sidecars). Reading and TOML parsing are
//! the caller's; this module decides what a parsed manifest is worth.

use vstd::prelude::*;
use crate::text::{owned, push_str};

verus! {

#[derive(Debug, Clone, Copy, PartialEq, Eq, Structural)]
pub enum Platform {
    Dos,
    Amiga,
}

#[derive(Debug, Clone)]
pub struct Runtime {
    pub emulator: String,
    pub config: Option<String>,
    pub sidecars: Vec<String>,
    pub file: Option<String>,
    pub model: Option<String>,
}

#[derive(Debug, Clone)]
pub struct Manifest {
    pub id: String,
    pub title: String,
    pub platform: Platform,
    pub collection: String,
    pub runtime: Runtime,
}

#[derive(Debug)]
pub enum ManifestError {
    /// The file could not be read.
    Io { path: String, message: String },
    /// The text is not a manifest; `message` is the parser's.
    Parse { path: String, message: String },
    DosConfigMissing,
    AmigaSidecarsForbidden,
}

/// The schema's own rules: a DOS manifest names its config; an Amiga one
/// declares no sidecars.
pub open spec fn manifest_rule_error(m: Manifest) -> Option<ManifestError> {
    match m.platform {
        Platform::Dos => if m.runtime.config is None {
            Some(ManifestError::DosConfigMissing)
        } else {
            None
        },
        Platform::Amiga => if m.runtime.sidecars@.len() > 0 {
            Some(ManifestError::AmigaSidecarsForbidden)
        } else {
            None
        },
    }
}

pub fn validate(m: &Manifest) -> (r: Result<(), ManifestError>)
    ensures
        match manifest_rule_error(*m) {
            None => r is Ok,
            Some(ManifestError::DosConfigMissing) => r matches Err(ManifestError::DosConfigMissing),
            Some(_) => r matches Err(ManifestError::AmigaSidecarsForbidden),
        },
{
    match m.platform {
        Platform::Dos => {
            if m.runtime.config.is_none() {
                return Err(ManifestError::DosConfigMissing);
            }
        },
        Platform::Amiga => {
            if m.runtime.sidecars.len() > 0 {
                return Err(ManifestError::AmigaSidecarsForbidden);
            }
        },
    }
    Ok(())
}

/// The outcome for a manifest parsed from the file at `path`: the
/// parser's complaint becomes a `Parse` error for that path; a parsed
/// manifest must then pass [`validate`].
pub fn parse_file(path: &str, parsed: Result<Manifest, String>) -> (r: Result<Manifest, ManifestError>)
    ensures
        match parsed {
            Err(msg) => r matches Err(ManifestError::Parse { path: p, message }) && p@ == path@ && message@ == msg@,
            Ok(m) => match manifest_rule_error(m) {
                None => r matches Ok(x) && x == m,
                Some(ManifestError::DosConfigMissing) => r matches Err(ManifestError::DosConfigMissing),
                Some(_) => r matches Err(ManifestError::AmigaSidecarsForbidden),
            },
        },
{
    match parsed {
        Err(message) => Err(ManifestError::Parse { path: owned(path), message }),
        Ok(m) => {
            match validate(&m) {
                Ok(()) => Ok(m),
                Err(e) => Err(e),
            }
        },
    }
}

/// [`parse_file`] for text that came from no file: the path reads
/// `<string>`.
pub fn parse_str(parsed: Result<Manifest, String>) -> (r: Result<Manifest, ManifestError>)
    ensures
        match parsed {
            Err(msg) => r matches Err(ManifestError::Parse { path: p, message }) && p@ == "<string>"@
                && message@ == msg@,
            Ok(m) => match manifest_rule_error(m) {
                None => r matches Ok(x) && x == m,
                Some(ManifestError::DosConfigMissing) => r matches Err(ManifestError::DosConfigMissing),
                Some(_) => r matches Err(ManifestError::AmigaSidecarsForbidden),
            },
        },
{
    parse_file("<string>", parsed)
}

impl ManifestError {
    /// The message shown for the error.
    pub fn message(&self) -> (r: String)
        ensures
            r@ == match self {
                ManifestError::Io { path, message } => "IO error reading "@ + path@ + ": "@ + message@,
                ManifestError::Parse { path, message } => "TOML parse error in "@ + path@ + ": "@ + message@,
                ManifestError::DosConfigMissing => "DOS manifest missing runtime.config"@,
                ManifestError::AmigaSidecarsForbidden => "Amiga manifest must not declare sidecars"@,
            },
    {
        match self {
            ManifestError::Io { path, message } => {
                let mut r = owned("IO error reading ");
                push_str(&mut r, path.as_str());
                push_str(&mut r, ": ");
                push_str(&mut r, message.as_str());
                r
            },
            ManifestError::Parse { path, message } => {
                let mut r = owned("TOML parse error in ");
                push_str(&mut r, path.as_str());
                push_str(&mut r, ": ");
                push_str(&mut r, message.as_str());
                r
            },
            ManifestError::DosConfigMissing => owned("DOS manifest missing runtime.config"),
            ManifestError::AmigaSidecarsForbidden => owned("Amiga manifest must not declare sidecars"),
        }
    }
}

} // verus!
