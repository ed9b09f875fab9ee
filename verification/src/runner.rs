//! Launching games of the first-generation manifests: the commands for
//! DOSBox (through flatpak), fluidsynth and FS-UAE, and what a run does.
//! Spawning, waiting and unpacking `.rp9` bundles is the program's work.

use vstd::prelude::*;
use crate::launch::PreparedCommand;
use crate::manifest::{Manifest, Platform};
use crate::paths::{extension, extension_spec, join, join_spec, parent_spec, resolve_relative};
use crate::text::{join_sep, join_strings, owned, push_str, str_eq, string_views};

verus! {

pub struct RunOpts {
    pub dry_run: bool,
    pub windowed: bool,
}

/// The soundfont fluidsynth is started with.
pub const SOUNDFONT_PATH: &'static str = "/usr/share/sounds/sf2/FluidR3_GM.sf2";

#[derive(Debug)]
pub enum RunError {
    DosConfigMissing,
    AmigaFileMissing,
    ModelConfigNotFound(String),
    UnsupportedExtension(String),
    Rp9WithoutGame(String),
}

fn command(program: &str, args: Vec<String>) -> (r: PreparedCommand)
    ensures
        r.program@ == program@,
        r.args@ == args@,
        r.working_dir is None,
{
    PreparedCommand { program: owned(program), args, working_dir: None }
}

/// `fluidsynth -i <soundfont>`.
pub fn build_fluidsynth_command() -> (r: PreparedCommand)
    ensures
        r.view() == ("fluidsynth"@, seq!["-i"@, SOUNDFONT_PATH@], None::<Seq<char>>),
{
    let mut args: Vec<String> = Vec::new();
    args.push(owned("-i"));
    args.push(owned(SOUNDFONT_PATH));
    let r = command("fluidsynth", args);
    assert(string_views(r.args@) =~= seq!["-i"@, SOUNDFONT_PATH@]);
    r
}

pub open spec fn relative_to(manifest_path: Seq<char>, rel: Seq<char>) -> Seq<char> {
    join_spec(
        match parent_spec(manifest_path) {
            Some(q) => q,
            None => seq!['.'],
        },
        rel,
    )
}

/// `flatpak run io.github.dosbox-staging -conf <config>`, the config
/// resolved against the manifest's directory.
pub fn build_dos_command(manifest_path: &str, manifest: &Manifest) -> (r: Result<PreparedCommand, RunError>)
    ensures
        match manifest.runtime.config {
            None => r matches Err(RunError::DosConfigMissing),
            Some(c) => r matches Ok(cmd) && cmd.view() == (
                "flatpak"@,
                seq!["run"@, "io.github.dosbox-staging"@, "-conf"@, relative_to(manifest_path@, c@)],
                None::<Seq<char>>,
            ),
        },
{
    let config = match &manifest.runtime.config {
        Some(c) => c,
        None => {
            return Err(RunError::DosConfigMissing);
        },
    };
    let abs_config = resolve_relative(manifest_path, config.as_str());
    let mut args: Vec<String> = Vec::new();
    args.push(owned("run"));
    args.push(owned("io.github.dosbox-staging"));
    args.push(owned("-conf"));
    args.push(abs_config);
    let r = command("flatpak", args);
    assert(string_views(r.args@) =~= seq![
        "run"@,
        "io.github.dosbox-staging"@,
        "-conf"@,
        relative_to(manifest_path@, config@),
    ]);
    Ok(r)
}

pub open spec fn adf_args(adf: Seq<char>, model_config: Seq<char>, windowed: bool) -> Seq<Seq<char>> {
    let base = seq![model_config, "--floppy_drive_0="@ + adf];
    if windowed {
        base.push("--fullscreen=0"@)
    } else {
        base
    }
}

/// `fs-uae <model config> --floppy_drive_0=<adf>`, with `--fullscreen=0`
/// when windowed.
pub fn build_amiga_adf_command(adf_path: &str, model_config: &str, windowed: bool) -> (r: PreparedCommand)
    ensures
        r.view() == ("fs-uae"@, adf_args(adf_path@, model_config@, windowed), None::<Seq<char>>),
{
    let mut args: Vec<String> = Vec::new();
    args.push(owned(model_config));
    let mut floppy = owned("--floppy_drive_0=");
    push_str(&mut floppy, adf_path);
    args.push(floppy);
    if windowed {
        args.push(owned("--fullscreen=0"));
    }
    let r = command("fs-uae", args);
    assert(string_views(r.args@) =~= adf_args(adf_path@, model_config@, windowed));
    r
}

pub open spec fn rp9_spec(
    model_config: Seq<char>,
    windowed: bool,
    inner_fsuae: Option<Seq<char>>,
    inner_adf: Option<Seq<char>>,
) -> Option<(Seq<char>, Seq<Seq<char>>)> {
    match inner_fsuae {
        Some(cfg) => Some(("fs-uae"@, if windowed { seq![cfg, "--fullscreen=0"@] } else { seq![cfg] })),
        None => match inner_adf {
            Some(adf) => Some(("fs-uae"@, adf_args(adf, model_config, windowed))),
            None => None,
        },
    }
}

/// The command for an unpacked `.rp9` bundle: its own `.fs-uae` config if
/// it has one, else its `.adf` with the model config, else an error.
/// `inner_fsuae` and `inner_adf` are the first such files found in it.
pub fn build_amiga_rp9_command(
    rp9_path: &str,
    model_config: &str,
    windowed: bool,
    inner_fsuae: Option<String>,
    inner_adf: Option<String>,
) -> (r: Result<PreparedCommand, RunError>)
    ensures
        match rp9_spec(
            model_config@,
            windowed,
            crate::launch::opt_view(inner_fsuae),
            crate::launch::opt_view(inner_adf),
        ) {
            Some((p, a)) => r matches Ok(cmd) && cmd.view() == (p, a, None::<Seq<char>>),
            None => r matches Err(RunError::Rp9WithoutGame(path)) && path@ == rp9_path@,
        },
{
    match inner_fsuae {
        Some(cfg) => {
            let ghost cv = cfg@;
            let mut args: Vec<String> = Vec::new();
            args.push(cfg);
            if windowed {
                args.push(owned("--fullscreen=0"));
            }
            let r = command("fs-uae", args);
            assert(string_views(r.args@) =~= (if windowed { seq![cv, "--fullscreen=0"@] } else { seq![cv] }));
            Ok(r)
        },
        None => match inner_adf {
            Some(adf) => Ok(build_amiga_adf_command(adf.as_str(), model_config, windowed)),
            None => Err(RunError::Rp9WithoutGame(owned(rp9_path))),
        },
    }
}

pub open spec fn model_config_spec(repo_root: Seq<char>, model: Seq<char>) -> Seq<char> {
    join_spec(join_spec(repo_root, "amiga/config"@), model + ".fs-uae"@)
}

/// Where the FS-UAE config of an Amiga model lives in the repository.
pub fn model_config_path(repo_root: &str, model: &str) -> (r: String)
    ensures
        r@ == model_config_spec(repo_root@, model@),
{
    let dir = join(repo_root, "amiga/config");
    let mut name = owned(model);
    push_str(&mut name, ".fs-uae");
    join(dir.as_str(), name.as_str())
}

/// The model config, which must exist (`exists` says whether the path
/// [`model_config_path`] gives does).
pub fn resolve_amiga_model_config(repo_root: &str, model: &str, exists: bool) -> (r: Result<String, RunError>)
    ensures
        exists ==> (r matches Ok(p) && p@ == model_config_spec(repo_root@, model@)),
        !exists ==> (r matches Err(RunError::ModelConfigNotFound(p)) && p@ == model_config_spec(repo_root@, model@)),
{
    let p = model_config_path(repo_root, model);
    if exists {
        Ok(p)
    } else {
        Err(RunError::ModelConfigNotFound(p))
    }
}

pub open spec fn format_spec(program: Seq<char>, args: Seq<Seq<char>>) -> Seq<char> {
    if args.len() == 0 {
        program
    } else {
        program + " "@ + join_sep(args, " "@)
    }
}

/// The program and its arguments, separated by spaces.
pub fn format_command(cmd: &PreparedCommand) -> (r: String)
    ensures
        r@ == format_spec(cmd.program@, string_views(cmd.args@)),
{
    if cmd.args.len() == 0 {
        return cmd.program.clone();
    }
    let mut r = cmd.program.clone();
    push_str(&mut r, " ");
    let rest = join_strings(&cmd.args, " ");
    push_str(&mut r, rest.as_str());
    r
}

/// What a run of a manifest does: the sidecars to start first, then the
/// emulator, given directly or (for a `.rp9` bundle) to be built once the
/// bundle is unpacked.
pub enum PrimaryRun {
    Command(PreparedCommand),
    Rp9 { rp9_path: String, model_config: String },
}

pub struct RunPlan {
    pub sidecars: Vec<PreparedCommand>,
    pub primary: PrimaryRun,
}

pub open spec fn fluidsynth_count(sidecars: Seq<String>) -> nat
    decreases sidecars.len(),
{
    if sidecars.len() == 0 {
        0
    } else {
        fluidsynth_count(sidecars.drop_last()) + if sidecars.last()@ == "fluidsynth"@ { 1nat } else { 0nat }
    }
}

fn push_sidecars(out: &mut Vec<PreparedCommand>, sidecars: &Vec<String>)
    ensures
        final(out)@.len() == old(out)@.len() + fluidsynth_count(sidecars@),
        forall|i: int| 0 <= i < old(out)@.len() ==> final(out)@[i] == old(out)@[i],
        forall|i: int| old(out)@.len() <= i < final(out)@.len() ==> (#[trigger] final(out)@[i]).view() == (
            "fluidsynth"@,
            seq!["-i"@, SOUNDFONT_PATH@],
            None::<Seq<char>>,
        ),
{
    let ghost start = out@;
    let mut i: usize = 0;
    while i < sidecars.len()
        invariant
            i <= sidecars@.len(),
            out@.len() == start.len() + fluidsynth_count(sidecars@.take(i as int)),
            forall|k: int| 0 <= k < start.len() ==> out@[k] == start[k],
            forall|k: int| start.len() <= k < out@.len() ==> (#[trigger] out@[k]).view() == (
                "fluidsynth"@,
                seq!["-i"@, SOUNDFONT_PATH@],
                None::<Seq<char>>,
            ),
        decreases sidecars@.len() - i,
    {
        assert(sidecars@.take(i + 1).drop_last() =~= sidecars@.take(i as int));
        if str_eq(sidecars[i].as_str(), "fluidsynth") {
            out.push(build_fluidsynth_command());
        }
        i = i + 1;
    }
    assert(sidecars@.take(sidecars@.len() as int) =~= sidecars@);
}

/// Plan a run: a DOS game starts fluidsynth once per `fluidsynth` sidecar
/// it names, then DOSBox; an Amiga game runs its `.adf` or `.rp9` file
/// (resolved against the manifest) with the model config
/// (`model_config_exists` says whether the config of its model, `a500`
/// when unnamed, exists).
pub fn plan_run(
    manifest_path: &str,
    manifest: &Manifest,
    repo_root: &str,
    opts: &RunOpts,
    model_config_exists: bool,
) -> (r: Result<RunPlan, RunError>)
    ensures
        manifest.platform == Platform::Dos ==> match manifest.runtime.config {
            None => r matches Err(RunError::DosConfigMissing),
            Some(c) => r matches Ok(plan) && plan.sidecars@.len() == fluidsynth_count(manifest.runtime.sidecars@)
                && (plan.primary matches PrimaryRun::Command(cmd) && cmd.view() == (
                "flatpak"@,
                seq!["run"@, "io.github.dosbox-staging"@, "-conf"@, relative_to(manifest_path@, c@)],
                None::<Seq<char>>,
            )),
        },
        manifest.platform == Platform::Amiga ==> match manifest.runtime.file {
            None => r matches Err(RunError::AmigaFileMissing),
            Some(f) => {
                let file = relative_to(manifest_path@, f@);
                let model = match manifest.runtime.model {
                    Some(m) => m@,
                    None => "a500"@,
                };
                let cfg = model_config_spec(repo_root@, model);
                if !model_config_exists {
                    r matches Err(RunError::ModelConfigNotFound(p)) && p@ == cfg
                } else if extension_spec(file) == Some("adf"@) {
                    r matches Ok(plan) && plan.sidecars@.len() == 0 && (plan.primary matches PrimaryRun::Command(cmd)
                        && cmd.view() == ("fs-uae"@, adf_args(file, cfg, opts.windowed), None::<Seq<char>>))
                } else if extension_spec(file) == Some("rp9"@) {
                    r matches Ok(plan) && plan.sidecars@.len() == 0 && (plan.primary matches PrimaryRun::Rp9 {
                        rp9_path,
                        model_config,
                    } && rp9_path@ == file && model_config@ == cfg)
                } else {
                    r matches Err(RunError::UnsupportedExtension(e)) && e@ == match extension_spec(file) {
                        Some(x) => x,
                        None => Seq::empty(),
                    }
                }
            },
        },
{
    match manifest.platform {
        Platform::Dos => {
            let primary = build_dos_command(manifest_path, manifest)?;
            let mut sidecars: Vec<PreparedCommand> = Vec::new();
            push_sidecars(&mut sidecars, &manifest.runtime.sidecars);
            Ok(RunPlan { sidecars, primary: PrimaryRun::Command(primary) })
        },
        Platform::Amiga => {
            let file = match &manifest.runtime.file {
                Some(f) => f,
                None => {
                    return Err(RunError::AmigaFileMissing);
                },
            };
            let abs_file = resolve_relative(manifest_path, file.as_str());
            let model_config = match &manifest.runtime.model {
                Some(m) => resolve_amiga_model_config(repo_root, m.as_str(), model_config_exists)?,
                None => {
                    let a500 = "a500";
                    resolve_amiga_model_config(repo_root, a500, model_config_exists)?
                },
            };
            let ext = match extension(abs_file.as_str()) {
                Some(e) => e,
                None => String::new(),
            };
            proof {
                reveal_strlit("adf");
                reveal_strlit("rp9");
            }
            if str_eq(ext.as_str(), "adf") {
                let cmd = build_amiga_adf_command(abs_file.as_str(), model_config.as_str(), opts.windowed);
                Ok(RunPlan { sidecars: Vec::new(), primary: PrimaryRun::Command(cmd) })
            } else if str_eq(ext.as_str(), "rp9") {
                Ok(RunPlan { sidecars: Vec::new(), primary: PrimaryRun::Rp9 { rp9_path: abs_file, model_config } })
            } else {
                Err(RunError::UnsupportedExtension(ext))
            }
        },
    }
}

/// The lines a dry run prints: `[sidecar] <command>` for each sidecar,
/// then `[primary] <command>`.
pub fn dry_run_lines(sidecars: &Vec<PreparedCommand>, primary: &PreparedCommand) -> (r: Vec<String>)
    ensures
        r@.len() == sidecars@.len() + 1,
        forall|i: int| 0 <= i < sidecars@.len() ==> (#[trigger] r@[i])@ == "[sidecar] "@ + format_spec(
            sidecars@[i].program@,
            string_views(sidecars@[i].args@),
        ),
        r@[sidecars@.len() as int]@ == "[primary] "@ + format_spec(primary.program@, string_views(primary.args@)),
{
    let mut r: Vec<String> = Vec::new();
    let mut i: usize = 0;
    while i < sidecars.len()
        invariant
            i <= sidecars@.len(),
            r@.len() == i,
            forall|k: int| 0 <= k < i ==> (#[trigger] r@[k])@ == "[sidecar] "@ + format_spec(
                sidecars@[k].program@,
                string_views(sidecars@[k].args@),
            ),
        decreases sidecars@.len() - i,
    {
        let mut line = owned("[sidecar] ");
        let f = format_command(&sidecars[i]);
        push_str(&mut line, f.as_str());
        r.push(line);
        i = i + 1;
    }
    let mut line = owned("[primary] ");
    let f = format_command(primary);
    push_str(&mut line, f.as_str());
    r.push(line);
    r
}

/// The exit code a run ends with: the emulator's own code (its low byte),
/// or failure (1) when it ended without one.
pub fn exit_code_from_status(code: Option<i32>) -> (r: u8)
    ensures
        r == match code {
            Some(n) => n as u8,
            None => 1u8,
        },
{
    match code {
        Some(n) => n as u8,
        None => 1,
    }
}

impl RunError {
    /// The message shown for the error.
    pub fn message(&self) -> (r: String)
        ensures
            r@ == match self {
                RunError::DosConfigMissing => "DOS manifest missing runtime.config"@,
                RunError::AmigaFileMissing => "Amiga manifest missing runtime.file"@,
                RunError::ModelConfigNotFound(p) => "model config not found: "@ + p@,
                RunError::UnsupportedExtension(e) => "unsupported Amiga file extension: ."@ + e@,
                RunError::Rp9WithoutGame(p) => "rp9 bundle "@ + p@ + " has no .fs-uae config or .adf file"@,
            },
    {
        match self {
            RunError::DosConfigMissing => owned("DOS manifest missing runtime.config"),
            RunError::AmigaFileMissing => owned("Amiga manifest missing runtime.file"),
            RunError::ModelConfigNotFound(p) => {
                let mut r = owned("model config not found: ");
                push_str(&mut r, p.as_str());
                r
            },
            RunError::UnsupportedExtension(e) => {
                let mut r = owned("unsupported Amiga file extension: .");
                push_str(&mut r, e.as_str());
                r
            },
            RunError::Rp9WithoutGame(p) => {
                let mut r = owned("rp9 bundle ");
                push_str(&mut r, p.as_str());
                push_str(&mut r, " has no .fs-uae config or .adf file");
                r
            },
        }
    }
}

} // verus!
