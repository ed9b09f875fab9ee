//! The user's launcher configuration (`config.toml`): emulator commands
//! and sidecar settings, every field optional with a default.

use vstd::prelude::*;
use crate::text::owned;

verus! {

#[derive(Debug, Clone, PartialEq, Eq)]
pub struct UserConfig {
    pub schema_version: u32,
    pub emulators: EmulatorsConfig,
    pub sidecars: SidecarsConfig,
}

#[derive(Debug, Clone, PartialEq, Eq)]
pub struct EmulatorsConfig {
    pub dosbox_staging: DosboxStagingConfig,
    pub fs_uae: FsUaeConfig,
}

#[derive(Debug, Clone, PartialEq, Eq)]
pub struct DosboxStagingConfig {
    pub command: String,
}

#[derive(Debug, Clone, PartialEq, Eq)]
pub struct FsUaeConfig {
    pub command: String,
    /// Directory of Kickstart ROMs handed to FS-UAE, when set.
    pub kickstart_path: Option<String>,
    pub fullscreen: bool,
    /// Integer scale of the 640x480 window when not fullscreen.
    pub window_scale: u32,
}

#[derive(Debug, Clone, PartialEq, Eq)]
pub struct SidecarsConfig {
    pub fluidsynth: FluidsynthConfig,
}

#[derive(Debug, Clone, PartialEq, Eq)]
pub struct FluidsynthConfig {
    pub command: String,
    pub soundfont: String,
}

impl Default for DosboxStagingConfig {
    fn default() -> (r: Self)
        ensures
            r.command@ == "flatpak run io.github.dosbox-staging"@,
    {
        DosboxStagingConfig { command: owned("flatpak run io.github.dosbox-staging") }
    }
}

impl Default for FsUaeConfig {
    fn default() -> (r: Self)
        ensures
            r.command@ == "fs-uae"@,
            r.kickstart_path is None,
            !r.fullscreen,
            r.window_scale == 3,
    {
        FsUaeConfig {
            command: owned("fs-uae"),
            kickstart_path: None,
            fullscreen: false,
            window_scale: 3,
        }
    }
}

impl Default for EmulatorsConfig {
    fn default() -> (r: Self)
        ensures
            r.dosbox_staging.command@ == "flatpak run io.github.dosbox-staging"@,
            r.fs_uae.command@ == "fs-uae"@,
            r.fs_uae.kickstart_path is None,
            !r.fs_uae.fullscreen,
            r.fs_uae.window_scale == 3,
    {
        EmulatorsConfig { dosbox_staging: DosboxStagingConfig::default(), fs_uae: FsUaeConfig::default() }
    }
}

impl Default for FluidsynthConfig {
    fn default() -> (r: Self)
        ensures
            r.command@ == "fluidsynth"@,
            r.soundfont@ == "/usr/share/sounds/sf2/FluidR3_GM.sf2"@,
    {
        FluidsynthConfig {
            command: owned("fluidsynth"),
            soundfont: owned("/usr/share/sounds/sf2/FluidR3_GM.sf2"),
        }
    }
}

impl Default for SidecarsConfig {
    fn default() -> (r: Self)
        ensures
            r.fluidsynth.command@ == "fluidsynth"@,
            r.fluidsynth.soundfont@ == "/usr/share/sounds/sf2/FluidR3_GM.sf2"@,
    {
        SidecarsConfig { fluidsynth: FluidsynthConfig::default() }
    }
}

/// Is `c` the configuration a missing file stands for?
pub open spec fn is_default_config(c: UserConfig) -> bool {
    &&& c.schema_version == 1
    &&& c.emulators.dosbox_staging.command@ == "flatpak run io.github.dosbox-staging"@
    &&& c.emulators.fs_uae.command@ == "fs-uae"@
    &&& c.emulators.fs_uae.kickstart_path is None
    &&& !c.emulators.fs_uae.fullscreen
    &&& c.emulators.fs_uae.window_scale == 3
    &&& c.sidecars.fluidsynth.command@ == "fluidsynth"@
    &&& c.sidecars.fluidsynth.soundfont@ == "/usr/share/sounds/sf2/FluidR3_GM.sf2"@
}

impl Default for UserConfig {
    fn default() -> (r: Self)
        ensures
            is_default_config(r),
    {
        UserConfig {
            schema_version: 1,
            emulators: EmulatorsConfig::default(),
            sidecars: SidecarsConfig::default(),
        }
    }
}

/// Why the user configuration could not be used.
#[derive(Debug)]
pub enum ConfigError {
    Read { path: String, message: String },
    Parse { path: String, message: String },
    UnsupportedSchema { path: String, version: u32 },
}

/// Accept a parsed configuration only at schema version 1.
pub fn check_schema(config: UserConfig, path: &str) -> (r: Result<UserConfig, ConfigError>)
    ensures
        config.schema_version == 1 ==> r == Ok::<UserConfig, ConfigError>(config),
        config.schema_version != 1 ==> (r matches Err(ConfigError::UnsupportedSchema { path: p, version })
            && p@ == path@ && version == config.schema_version),
{
    if config.schema_version != 1 {
        return Err(ConfigError::UnsupportedSchema { path: owned(path), version: config.schema_version });
    }
    Ok(config)
}

/// The configuration to use given the outcome of loading it: the loaded
/// one, or the defaults when loading failed.
pub fn load_or_default(loaded: Result<UserConfig, ConfigError>) -> (r: UserConfig)
    ensures
        match loaded {
            Ok(c) => r == c,
            Err(_) => is_default_config(r),
        },
{
    match loaded {
        Ok(c) => c,
        Err(_) => UserConfig::default(),
    }
}

} // verus!

verus! {

impl ConfigError {
    /// The text of the error.
    pub open spec fn message_view(&self) -> Seq<char> {
        match self {
            ConfigError::Read { path, message } => "failed to read config "@ + path@ + ": "@ + message@,
            ConfigError::Parse { path, message } => "failed to parse config "@ + path@ + ": "@ + message@,
            ConfigError::UnsupportedSchema { path, version } => "unsupported schema_version "@ + crate::text::decimal(*version as nat) + " in "@ + path@ + " (expected 1)"@,
        }
    }

    /// The message shown for the error.
    pub fn message(&self) -> (r: String)
        ensures
            r@ == self.message_view(),
    {
        match self {
            ConfigError::Read { path, message } => {
                let mut r = crate::text::owned("failed to read config ");
                crate::text::push_str(&mut r, path.as_str());
                crate::text::push_str(&mut r, ": ");
                crate::text::push_str(&mut r, message.as_str());
                r
            },
            ConfigError::Parse { path, message } => {
                let mut r = crate::text::owned("failed to parse config ");
                crate::text::push_str(&mut r, path.as_str());
                crate::text::push_str(&mut r, ": ");
                crate::text::push_str(&mut r, message.as_str());
                r
            },
            ConfigError::UnsupportedSchema { path, version } => {
                let mut r = crate::text::owned("unsupported schema_version ");
                crate::text::push_decimal(&mut r, *version as u64);
                crate::text::push_str(&mut r, " in ");
                crate::text::push_str(&mut r, path.as_str());
                crate::text::push_str(&mut r, " (expected 1)");
                r
            },
        }
    }
}

} // verus!
