//! Launch plans: the emulator command line for an installed game, and the
//! sidecar processes (such as a MIDI synthesizer) it declares. Whether the
//! shipped emulator config is a file, and what a search of the install
//! directory found, are handed in by the caller.

use vstd::prelude::*;
use crate::catalog::{AmigaModel, CatalogEntry};
use crate::paths::{extension, extension_spec, join, join_spec, parent, parent_spec};
use crate::text::{
    chars_of, decimal, is_space, lower_seq, lower_vec, owned, seq_eq, push_char, push_decimal, push_str, string_from,
    string_views, whitespace, views, words, words_exec,
};
use crate::user_config::{SidecarsConfig, UserConfig};

verus! {

#[derive(Debug, Clone, PartialEq, Eq)]
pub struct PreparedCommand {
    pub program: String,
    pub args: Vec<String>,
    pub working_dir: Option<String>,
}

pub type CommandView = (Seq<char>, Seq<Seq<char>>, Option<Seq<char>>);

pub open spec fn opt_view(o: Option<String>) -> Option<Seq<char>> {
    match o {
        Some(s) => Some(s@),
        None => None,
    }
}

impl PreparedCommand {
    pub open spec fn view(&self) -> CommandView {
        (self.program@, string_views(self.args@), opt_view(self.working_dir))
    }
}

/// Does `s` need quoting to be read back as one shell word?
pub open spec fn needs_quote(s: Seq<char>) -> bool {
    s.len() == 0 || exists|i: int| 0 <= i < s.len() && (whitespace(#[trigger] s[i]) || s[i] == '"')
}

/// `s` with each `"` preceded by a backslash.
pub open spec fn escape_quotes(s: Seq<char>) -> Seq<char>
    decreases s.len(),
{
    if s.len() == 0 {
        Seq::empty()
    } else if s.last() == '"' {
        escape_quotes(s.drop_last()) + seq!['\\', '"']
    } else {
        escape_quotes(s.drop_last()).push(s.last())
    }
}

pub open spec fn quote_spec(s: Seq<char>) -> Seq<char> {
    if needs_quote(s) {
        seq!['"'] + escape_quotes(s) + seq!['"']
    } else {
        s
    }
}

/// `s` as one display word: double-quoted (with inner quotes escaped) when
/// it is empty or holds whitespace or a quote.
pub fn quote_if_needed(s: &str) -> (r: String)
    ensures
        r@ == quote_spec(s@),
{
    let cs = chars_of(s);
    let mut needs = cs.len() == 0;
    let mut escaped: Vec<char> = Vec::new();
    let mut i: usize = 0;
    while i < cs.len()
        invariant
            i <= cs@.len(),
            escaped@ == escape_quotes(cs@.take(i as int)),
            needs == (cs@.len() == 0 || exists|k: int|
                0 <= k < i && (whitespace(#[trigger] cs@[k]) || cs@[k] == '"')),
        decreases cs@.len() - i,
    {
        let c = cs[i];
        assert(cs@.take(i + 1).drop_last() =~= cs@.take(i as int));
        if is_space(c) || c == '"' {
            needs = true;
        }
        if c == '"' {
            escaped.push('\\');
            escaped.push('"');
        } else {
            escaped.push(c);
        }
        assert(escaped@ =~= escape_quotes(cs@.take(i + 1)));
        i = i + 1;
    }
    assert(cs@.take(cs@.len() as int) =~= cs@);
    if needs {
        let mut out: Vec<char> = Vec::new();
        out.push('"');
        crate::text::extend_chars(&mut out, escaped.as_slice());
        out.push('"');
        assert(out@ =~= seq!['"'] + escape_quotes(s@) + seq!['"']);
        string_from(out.as_slice())
    } else {
        owned(s)
    }
}

/// The words of a command line, quoted where needed and joined by spaces.
pub open spec fn display_spec(program: Seq<char>, args: Seq<Seq<char>>) -> Seq<char>
    decreases args.len(),
{
    if args.len() == 0 {
        quote_spec(program)
    } else {
        display_spec(program, args.drop_last()) + seq![' '] + quote_spec(args.last())
    }
}

impl PreparedCommand {
    /// The command as one line for display, with words quoted as needed.
    pub fn display_line(&self) -> (r: String)
        ensures
            r@ == display_spec(self.program@, string_views(self.args@)),
    {
        let mut out = quote_if_needed(self.program.as_str());
        let ghost av = string_views(self.args@);
        let mut i: usize = 0;
        while i < self.args.len()
            invariant
                i <= self.args@.len(),
                av == string_views(self.args@),
                out@ == display_spec(self.program@, av.take(i as int)),
            decreases self.args@.len() - i,
        {
            assert(av.take(i + 1).drop_last() =~= av.take(i as int));
            assert(av[i as int] == self.args@[i as int]@);
            push_char(&mut out, ' ');
            let q = quote_if_needed(self.args[i].as_str());
            push_str(&mut out, q.as_str());
            assert(out@ =~= display_spec(self.program@, av.take(i + 1)));
            i = i + 1;
        }
        assert(av.take(self.args@.len() as int) =~= av);
        out
    }
}

#[derive(Debug, Clone, PartialEq, Eq)]
pub struct SidecarSpec {
    pub name: String,
    pub command: PreparedCommand,
}

#[derive(Debug, Clone, PartialEq, Eq)]
pub struct LaunchPlan {
    pub primary: PreparedCommand,
    pub sidecars: Vec<SidecarSpec>,
}

pub type SidecarView = (Seq<char>, CommandView);

pub open spec fn sidecar_views(v: Seq<SidecarSpec>) -> Seq<SidecarView> {
    v.map_values(|s: SidecarSpec| (s.name@, s.command.view()))
}

impl LaunchPlan {
    pub open spec fn view(&self) -> (CommandView, Seq<SidecarView>) {
        (self.primary.view(), sidecar_views(self.sidecars@))
    }
}

#[derive(Debug)]
pub enum LaunchError {
    MissingDosboxRuntime { entry_id: String },
    MissingFsUaeRuntime { entry_id: String },
    InvalidEntrySource { path: String },
    ShippedConfigNotFound { path: String },
    EmptyEmulatorCommand,
    UnknownSidecar { name: String },
}

pub enum LaunchErrorView {
    MissingDosboxRuntime(Seq<char>),
    MissingFsUaeRuntime(Seq<char>),
    InvalidEntrySource(Seq<char>),
    ShippedConfigNotFound(Seq<char>),
    EmptyEmulatorCommand,
    UnknownSidecar(Seq<char>),
}

impl LaunchError {
    pub open spec fn view(&self) -> LaunchErrorView {
        match self {
            LaunchError::MissingDosboxRuntime { entry_id } => LaunchErrorView::MissingDosboxRuntime(
                entry_id@,
            ),
            LaunchError::MissingFsUaeRuntime { entry_id } => LaunchErrorView::MissingFsUaeRuntime(
                entry_id@,
            ),
            LaunchError::InvalidEntrySource { path } => LaunchErrorView::InvalidEntrySource(path@),
            LaunchError::ShippedConfigNotFound { path } => LaunchErrorView::ShippedConfigNotFound(
                path@,
            ),
            LaunchError::EmptyEmulatorCommand => LaunchErrorView::EmptyEmulatorCommand,
            LaunchError::UnknownSidecar { name } => LaunchErrorView::UnknownSidecar(name@),
        }
    }
}

/// The program and arguments of a configured command line, split on
/// whitespace; `None` when it is blank.
pub open spec fn split_command_spec(command: Seq<char>) -> Option<(Seq<char>, Seq<Seq<char>>)> {
    let w = words(command);
    if w.len() == 0 {
        None
    } else {
        Some((w[0], w.drop_first()))
    }
}

pub fn split_command(command: &str) -> (r: Result<(String, Vec<String>), LaunchError>)
    ensures
        match r {
            Ok((p, args)) => split_command_spec(command@) == Some((p@, string_views(args@))),
            Err(e) => split_command_spec(command@) is None && e.view()
                == LaunchErrorView::EmptyEmulatorCommand,
        },
{
    let cs = chars_of(command);
    let ws = words_exec(cs.as_slice(), false);
    if ws.len() == 0 {
        return Err(LaunchError::EmptyEmulatorCommand);
    }
    let program = string_from(ws[0].as_slice());
    let ghost wv = views(ws@);
    let mut args: Vec<String> = Vec::new();
    let mut i: usize = 1;
    while i < ws.len()
        invariant
            1 <= i <= ws@.len(),
            wv == views(ws@),
            string_views(args@) == wv.subrange(1, i as int),
        decreases ws@.len() - i,
    {
        let ghost before = args@;
        args.push(string_from(ws[i].as_slice()));
        assert(string_views(args@) =~= string_views(before).push(wv[i as int]));
        assert(string_views(args@) =~= wv.subrange(1, i + 1));
        i = i + 1;
    }
    assert(wv.subrange(1, ws@.len() as int) =~= wv.drop_first());
    Ok((program, args))
}

/// The sidecar processes an entry declares, in order; the first unknown
/// name, or a blank sidecar command, is an error.
pub open spec fn sidecars_spec(declared: Seq<Seq<char>>, fluidsynth_command: Seq<char>, soundfont: Seq<char>) -> Result<Seq<SidecarView>, LaunchErrorView>
    decreases declared.len(),
{
    if declared.len() == 0 {
        Ok(Seq::empty())
    } else {
        match sidecars_spec(declared.drop_last(), fluidsynth_command, soundfont) {
            Err(e) => Err(e),
            Ok(prev) => if declared.last() == "fluidsynth"@ {
                match split_command_spec(fluidsynth_command) {
                    None => Err(LaunchErrorView::EmptyEmulatorCommand),
                    Some(pa) => Ok(
                        prev.push(
                            (declared.last(), (pa.0, pa.1 + seq!["-i"@, soundfont], None)),
                        ),
                    ),
                }
            } else {
                Err(LaunchErrorView::UnknownSidecar(declared.last()))
            },
        }
    }
}

fn eq_lit(s: &String, lit: &str) -> (r: bool)
    ensures
        r == (s@ == lit@),
{
    crate::text::str_eq(s.as_str(), lit)
}

pub fn compose_sidecars(declared: &Vec<String>, config: &SidecarsConfig) -> (r: Result<Vec<SidecarSpec>, LaunchError>)
    ensures
        sidecars_spec(string_views(declared@), config.fluidsynth.command@, config.fluidsynth.soundfont@)
            == match r {
            Ok(v) => Ok::<Seq<SidecarView>, LaunchErrorView>(sidecar_views(v@)),
            Err(e) => Err(e.view()),
        },
{
    let ghost dv = string_views(declared@);
    let mut out: Vec<SidecarSpec> = Vec::new();
    let mut i: usize = 0;
    assert(dv.take(0) =~= Seq::<Seq<char>>::empty());
    assert(sidecar_views(out@) =~= Seq::<SidecarView>::empty());
    while i < declared.len()
        invariant
            i <= declared@.len(),
            dv == string_views(declared@),
            sidecars_spec(dv.take(i as int), config.fluidsynth.command@, config.fluidsynth.soundfont@)
                == Ok::<Seq<SidecarView>, LaunchErrorView>(sidecar_views(out@)),
        decreases declared@.len() - i,
    {
        assert(dv.take(i + 1).drop_last() =~= dv.take(i as int));
        assert(dv[i as int] == declared@[i as int]@);
        let name = &declared[i];
        if eq_lit(name, "fluidsynth") {
            match split_command(config.fluidsynth.command.as_str()) {
                Err(e) => {
                    proof {
                        lemma_sidecars_error_sticks(dv, i as int + 1, config.fluidsynth.command@, config.fluidsynth.soundfont@);
                    }
                    return Err(e);
                },
                Ok((program, mut args)) => {
                    let ghost a0 = string_views(args@);
                    args.push(owned("-i"));
                    args.push(config.fluidsynth.soundfont.clone());
                    assert(string_views(args@) =~= a0 + seq!["-i"@, config.fluidsynth.soundfont@]);
                    let spec = SidecarSpec {
                        name: name.clone(),
                        command: PreparedCommand { program, args, working_dir: None },
                    };
                    let ghost before = out@;
                    out.push(spec);
                    assert(sidecar_views(out@) =~= sidecar_views(before).push(
                        (spec.name@, spec.command.view()),
                    ));
                },
            }
        } else {
            let e = LaunchError::UnknownSidecar { name: name.clone() };
            proof {
                lemma_sidecars_error_sticks(dv, i as int + 1, config.fluidsynth.command@, config.fluidsynth.soundfont@);
            }
            return Err(e);
        }
        i = i + 1;
    }
    assert(dv.take(declared@.len() as int) =~= dv);
    Ok(out)
}

/// Once the sidecars of a prefix fail, so do those of the whole list, with
/// the same error.
proof fn lemma_sidecars_error_sticks(d: Seq<Seq<char>>, k: int, cmd: Seq<char>, sf: Seq<char>)
    requires
        0 <= k <= d.len(),
        sidecars_spec(d.take(k), cmd, sf) is Err,
    ensures
        sidecars_spec(d, cmd, sf) == sidecars_spec(d.take(k), cmd, sf),
    decreases d.len() - k,
{
    if k < d.len() {
        assert(d.take(k + 1).drop_last() =~= d.take(k));
        lemma_sidecars_error_sticks(d, k + 1, cmd, sf);
    } else {
        assert(d.take(k) =~= d);
    }
}

/// The emulator config shipped beside a catalog entry file: `name` in the
/// entry's directory.
pub open spec fn shipped_config_spec(entry_source: Seq<char>, name: Seq<char>) -> Result<
    Seq<char>,
    LaunchErrorView,
> {
    match parent_spec(entry_source) {
        Some(p) => Ok(join_spec(p, name)),
        None => Err(LaunchErrorView::InvalidEntrySource(entry_source)),
    }
}

pub fn shipped_config_path(entry_source: &str, name: &str) -> (r: Result<String, LaunchError>)
    ensures
        shipped_config_spec(entry_source@, name@) == match r {
            Ok(p) => Ok::<Seq<char>, LaunchErrorView>(p@),
            Err(e) => Err(e.view()),
        },
{
    match parent(entry_source) {
        Some(p) => Ok(join(p.as_str(), name)),
        None => Err(LaunchError::InvalidEntrySource { path: owned(entry_source) }),
    }
}

pub open spec fn dosbox_args(
    base: Seq<Seq<char>>,
    conf: Seq<char>,
    mount: Seq<char>,
    install_path: Seq<char>,
    entry: Seq<char>,
) -> Seq<Seq<char>> {
    base + seq![
        "-conf"@,
        conf,
        "-c"@,
        "MOUNT "@ + mount + " \""@ + install_path + "\""@,
        "-c"@,
        mount + ":"@,
        "-c"@,
        entry,
        "-c"@,
        "EXIT"@,
    ]
}

pub type PlanView = (CommandView, Seq<SidecarView>);

pub open spec fn with_sidecars(
    primary: CommandView,
    entry: CatalogEntry,
    cfg: UserConfig,
) -> Result<PlanView, LaunchErrorView> {
    match sidecars_spec(
        string_views(entry.runtime.sidecars@),
        cfg.sidecars.fluidsynth.command@,
        cfg.sidecars.fluidsynth.soundfont@,
    ) {
        Ok(sc) => Ok((primary, sc)),
        Err(e) => Err(e),
    }
}

/// The DOSBox Staging launch of a DOS entry installed at `install_path`;
/// `config_is_file` says whether the shipped config exists.
pub open spec fn compose_dosbox_spec(
    entry: CatalogEntry,
    entry_source: Seq<char>,
    install_path: Seq<char>,
    cfg: UserConfig,
    config_is_file: bool,
) -> Result<PlanView, LaunchErrorView> {
    match entry.runtime.dosbox {
        None => Err(LaunchErrorView::MissingDosboxRuntime(entry.game.id@)),
        Some(d) => match shipped_config_spec(entry_source, d.config@) {
            Err(e) => Err(e),
            Ok(conf) => if !config_is_file {
                Err(LaunchErrorView::ShippedConfigNotFound(conf))
            } else {
                match split_command_spec(cfg.emulators.dosbox_staging.command@) {
                    None => Err(LaunchErrorView::EmptyEmulatorCommand),
                    Some(pa) => with_sidecars(
                        (pa.0, dosbox_args(pa.1, conf, d.mount@, install_path, d.entry@), None),
                        entry,
                        cfg,
                    ),
                }
            },
        },
    }
}

fn plan_view_of(r: &Result<LaunchPlan, LaunchError>) -> (v: Ghost<Result<PlanView, LaunchErrorView>>)
    ensures
        v@ == match r {
            Ok(p) => Ok::<PlanView, LaunchErrorView>(p.view()),
            Err(e) => Err(e.view()),
        },
{
    Ghost(
        match r {
            Ok(p) => Ok(p.view()),
            Err(e) => Err(e.view()),
        },
    )
}

fn finish_plan(primary: PreparedCommand, entry: &CatalogEntry, cfg: &UserConfig) -> (r: Result<
    LaunchPlan,
    LaunchError,
>)
    ensures
        with_sidecars(primary.view(), *entry, *cfg) == match r {
            Ok(p) => Ok::<PlanView, LaunchErrorView>(p.view()),
            Err(e) => Err(e.view()),
        },
{
    match compose_sidecars(&entry.runtime.sidecars, &cfg.sidecars) {
        Ok(sidecars) => Ok(LaunchPlan { primary, sidecars }),
        Err(e) => Err(e),
    }
}

/// Compose the DOSBox Staging command for a DOS entry: mount the install
/// directory, change to it, run the entry program, and exit, with the
/// shipped config; plus the declared sidecars.
pub fn compose_dosbox(
    entry: &CatalogEntry,
    entry_source: &str,
    install_path: &str,
    user_config: &UserConfig,
    config_is_file: bool,
) -> (r: Result<LaunchPlan, LaunchError>)
    ensures
        compose_dosbox_spec(*entry, entry_source@, install_path@, *user_config, config_is_file)
            == match r {
            Ok(p) => Ok::<PlanView, LaunchErrorView>(p.view()),
            Err(e) => Err(e.view()),
        },
{
    let dosbox = match &entry.runtime.dosbox {
        Some(d) => d,
        None => {
            return Err(LaunchError::MissingDosboxRuntime { entry_id: entry.game.id.clone() });
        },
    };
    let conf_path = match shipped_config_path(entry_source, dosbox.config.as_str()) {
        Ok(p) => p,
        Err(e) => {
            return Err(e);
        },
    };
    if !config_is_file {
        return Err(LaunchError::ShippedConfigNotFound { path: conf_path });
    }
    let (program, mut args) = match split_command(user_config.emulators.dosbox_staging.command.as_str()) {
        Ok(pa) => pa,
        Err(e) => {
            return Err(e);
        },
    };
    let ghost base = string_views(args@);
    let mut mount_cmd = owned("MOUNT ");
    push_str(&mut mount_cmd, dosbox.mount.as_str());
    push_str(&mut mount_cmd, " \"");
    push_str(&mut mount_cmd, install_path);
    push_str(&mut mount_cmd, "\"");
    let mut drive = dosbox.mount.clone();
    push_str(&mut drive, ":");
    args.push(owned("-conf"));
    args.push(conf_path);
    args.push(owned("-c"));
    args.push(mount_cmd);
    args.push(owned("-c"));
    args.push(drive);
    args.push(owned("-c"));
    args.push(dosbox.entry.clone());
    args.push(owned("-c"));
    args.push(owned("EXIT"));
    assert(string_views(args@) =~= dosbox_args(
        base,
        conf_path@,
        dosbox.mount@,
        install_path@,
        dosbox.entry@,
    ));
    let primary = PreparedCommand { program, args, working_dir: None };
    finish_plan(primary, entry, user_config)
}

/// What a search of an Amiga install directory found, when nothing was
/// declared: an FS-UAE config, a hard-drive image, or a floppy image.
pub enum AmigaSource {
    Config(String),
    HardDrive(String),
    Floppy(String),
}

pub enum AmigaSourceView {
    Config(Seq<char>),
    HardDrive(Seq<char>),
    Floppy(Seq<char>),
}

pub open spec fn source_view(o: Option<AmigaSource>) -> Option<AmigaSourceView> {
    match o {
        Some(AmigaSource::Config(p)) => Some(AmigaSourceView::Config(p@)),
        Some(AmigaSource::HardDrive(p)) => Some(AmigaSourceView::HardDrive(p@)),
        Some(AmigaSource::Floppy(p)) => Some(AmigaSourceView::Floppy(p@)),
        None => None,
    }
}

/// Is `ext` the extension of `p`, ignoring ASCII case?
pub open spec fn has_ext(p: Seq<char>, ext: Seq<char>) -> bool {
    match extension_spec(p) {
        Some(e) => lower_seq(e) == lower_seq(ext),
        None => false,
    }
}

/// The first path of `ps` with extension `ext`.
pub open spec fn first_with_ext(ps: Seq<Seq<char>>, ext: Seq<char>) -> Option<Seq<char>>
    decreases ps.len(),
{
    if ps.len() == 0 {
        None
    } else if has_ext(ps[0], ext) {
        Some(ps[0])
    } else {
        first_with_ext(ps.drop_first(), ext)
    }
}

/// What an install directory offers when its entry declares nothing, the
/// files given in search order: the first `.fs-uae` config, else the first
/// `.hdf` hard drive, else the first `.adf` floppy.
pub open spec fn choose_source_spec(files: Seq<Seq<char>>) -> Option<AmigaSourceView> {
    match first_with_ext(files, "fs-uae"@) {
        Some(p) => Some(AmigaSourceView::Config(p)),
        None => match first_with_ext(files, "hdf"@) {
            Some(p) => Some(AmigaSourceView::HardDrive(p)),
            None => match first_with_ext(files, "adf"@) {
                Some(p) => Some(AmigaSourceView::Floppy(p)),
                None => None,
            },
        },
    }
}

fn has_ext_exec(p: &str, ext: &str) -> (r: bool)
    ensures
        r == has_ext(p@, ext@),
{
    match extension(p) {
        None => false,
        Some(e) => {
            let a = lower_vec(chars_of(e.as_str()).as_slice());
            let b = lower_vec(chars_of(ext).as_slice());
            seq_eq(a.as_slice(), b.as_slice())
        },
    }
}

fn first_with_ext_exec(files: &Vec<String>, ext: &str) -> (r: Option<String>)
    ensures
        match r {
            Some(p) => first_with_ext(string_views(files@), ext@) == Some(p@),
            None => first_with_ext(string_views(files@), ext@) is None,
        },
{
    let ghost v = string_views(files@);
    assert(v.skip(0) =~= v);
    let mut i: usize = 0;
    while i < files.len()
        invariant
            i <= files@.len(),
            v == string_views(files@),
            first_with_ext(v, ext@) == first_with_ext(v.skip(i as int), ext@),
        decreases files@.len() - i,
    {
        assert(v.skip(i as int)[0] == files@[i as int]@);
        if has_ext_exec(files[i].as_str(), ext) {
            return Some(files[i].clone());
        }
        assert(v.skip(i as int).drop_first() =~= v.skip(i + 1));
        i = i + 1;
    }
    assert(v.skip(i as int).len() == 0);
    None
}

/// Choose what to boot from an install directory whose entry declares
/// nothing, given its files in search order (a directory's own files in
/// listing order, then its subdirectories in name order, depth first):
/// an FS-UAE config first, then a hard-drive image, then a floppy image,
/// each the first of its kind.
pub fn choose_amiga_source(files: &Vec<String>) -> (r: Option<AmigaSource>)
    ensures
        source_view(r) == choose_source_spec(string_views(files@)),
{
    match first_with_ext_exec(files, "fs-uae") {
        Some(p) => Some(AmigaSource::Config(p)),
        None => match first_with_ext_exec(files, "hdf") {
            Some(p) => Some(AmigaSource::HardDrive(p)),
            None => match first_with_ext_exec(files, "adf") {
                Some(p) => Some(AmigaSource::Floppy(p)),
                None => None,
            },
        },
    }
}

pub open spec fn model_string(model: AmigaModel) -> Seq<char> {
    match model {
        AmigaModel::A500 => "A500"@,
        AmigaModel::A600 => "A600"@,
        AmigaModel::A1200 => "A1200"@,
        AmigaModel::A4000 => "A4000"@,
    }
}

/// FS-UAE's name for an Amiga model.
pub fn fs_uae_model_string(model: AmigaModel) -> (r: &'static str)
    ensures
        r@ == model_string(model),
{
    match model {
        AmigaModel::A500 => "A500",
        AmigaModel::A600 => "A600",
        AmigaModel::A1200 => "A1200",
        AmigaModel::A4000 => "A4000",
    }
}

/// `names` each joined onto `dir`.
pub open spec fn joined(dir: Seq<char>, names: Seq<Seq<char>>) -> Seq<Seq<char>> {
    Seq::new(names.len(), |i: int| join_spec(dir, names[i]))
}

pub open spec fn numbered(prefix: Seq<char>, paths: Seq<Seq<char>>) -> Seq<Seq<char>> {
    Seq::new(paths.len(), |i: int| prefix + decimal(i as nat) + "="@ + paths[i])
}

pub open spec fn floppy_args(floppies: Seq<Seq<char>>) -> Seq<Seq<char>> {
    if floppies.len() == 0 {
        Seq::empty()
    } else {
        seq!["--floppy_drive_count=1"@, "--floppy_drive_0="@ + floppies[0]] + numbered(
            "--floppy_image_"@,
            floppies,
        )
    }
}

pub open spec fn screen_args(fullscreen: bool, scale: u32) -> Seq<Seq<char>> {
    let s: nat = if scale >= 1 {
        scale as nat
    } else {
        1
    };
    if fullscreen {
        seq!["--fullscreen=1"@]
    } else {
        seq![
            "--fullscreen=0"@,
            "--window_width="@ + decimal(640 * s),
            "--window_height="@ + decimal(480 * s),
        ]
    }
}

/// The config argument and disk images FS-UAE gets: the shipped config
/// when there is one; else, when nothing is declared, what the search
/// found; else the declared images.
pub open spec fn chosen_sources(
    shipped: Option<Seq<char>>,
    floppies: Seq<Seq<char>>,
    hard_drives: Seq<Seq<char>>,
    found: Option<AmigaSourceView>,
) -> (Option<Seq<char>>, Seq<Seq<char>>, Seq<Seq<char>>) {
    if shipped is Some {
        (shipped, floppies, hard_drives)
    } else if floppies.len() == 0 && hard_drives.len() == 0 {
        match found {
            Some(AmigaSourceView::Config(p)) => (Some(p), floppies, hard_drives),
            Some(AmigaSourceView::HardDrive(p)) => (None, floppies, seq![p]),
            Some(AmigaSourceView::Floppy(p)) => (None, seq![p], hard_drives),
            None => (None, floppies, hard_drives),
        }
    } else {
        (None, floppies, hard_drives)
    }
}

pub open spec fn fs_uae_args(
    base: Seq<Seq<char>>,
    config_arg: Option<Seq<char>>,
    model: AmigaModel,
    floppies: Seq<Seq<char>>,
    hard_drives: Seq<Seq<char>>,
    kickstart: Option<Seq<char>>,
    fullscreen: bool,
    scale: u32,
) -> Seq<Seq<char>> {
    base + (match config_arg {
        Some(c) => seq![c],
        None => seq!["--amiga_model="@ + model_string(model)],
    }) + floppy_args(floppies) + numbered("--hard_drive_"@, hard_drives) + (match kickstart {
        Some(k) => seq!["--kickstarts_dir="@ + k],
        None => Seq::empty(),
    }) + screen_args(fullscreen, scale)
}

/// The FS-UAE launch of an Amiga entry installed at `install_path`;
/// `config_is_file` says whether its shipped config exists, and `found` is
/// what a search of the install directory found.
/// Does composing for `entry` get as far as sizing a window: the entry has
/// an FS-UAE runtime, the emulator command has a program, the declared
/// config (if any) is found, and the user did not ask for fullscreen? Only
/// then is the window size `640` and `480` times the scale.
pub open spec fn sizes_window(entry: CatalogEntry, entry_source: Seq<char>, cfg: UserConfig, config_is_file: bool) -> bool {
    match entry.runtime.fs_uae {
        None => false,
        Some(fs) => {
            &&& split_command_spec(cfg.emulators.fs_uae.command@) is Some
            &&& match fs.config {
                None => true,
                Some(name) => shipped_config_spec(entry_source, name@) is Ok && config_is_file,
            }
            &&& !cfg.emulators.fs_uae.fullscreen
        },
    }
}

pub open spec fn compose_fs_uae_spec(
    entry: CatalogEntry,
    entry_source: Seq<char>,
    install_path: Seq<char>,
    cfg: UserConfig,
    config_is_file: bool,
    found: Option<AmigaSourceView>,
) -> Result<PlanView, LaunchErrorView> {
    match entry.runtime.fs_uae {
        None => Err(LaunchErrorView::MissingFsUaeRuntime(entry.game.id@)),
        Some(fs) => match split_command_spec(cfg.emulators.fs_uae.command@) {
            None => Err(LaunchErrorView::EmptyEmulatorCommand),
            Some(pa) => {
                let shipped: Result<Option<Seq<char>>, LaunchErrorView> = match fs.config {
                    None => Ok(None),
                    Some(name) => match shipped_config_spec(entry_source, name@) {
                        Err(e) => Err(e),
                        Ok(p) => if config_is_file {
                            Ok(Some(p))
                        } else {
                            Err(LaunchErrorView::ShippedConfigNotFound(p))
                        },
                    },
                };
                match shipped {
                    Err(e) => Err(e),
                    Ok(sh) => {
                        let c = chosen_sources(
                            sh,
                            joined(install_path, string_views(fs.floppies@)),
                            joined(install_path, string_views(fs.hard_drives@)),
                            found,
                        );
                        with_sidecars(
                            (
                                pa.0,
                                fs_uae_args(
                                    pa.1,
                                    c.0,
                                    fs.model,
                                    c.1,
                                    c.2,
                                    opt_view(cfg.emulators.fs_uae.kickstart_path),
                                    cfg.emulators.fs_uae.fullscreen,
                                    cfg.emulators.fs_uae.window_scale,
                                ),
                                None,
                            ),
                            entry,
                            cfg,
                        )
                    },
                }
            },
        },
    }
}

fn joined_exec(dir: &str, names: &Vec<String>) -> (r: Vec<String>)
    ensures
        string_views(r@) == joined(dir@, string_views(names@)),
{
    let mut r: Vec<String> = Vec::new();
    let mut i: usize = 0;
    while i < names.len()
        invariant
            i <= names@.len(),
            string_views(r@) == joined(dir@, string_views(names@)).take(i as int),
        decreases names@.len() - i,
    {
        let ghost before = r@;
        let j = join(dir, names[i].as_str());
        r.push(j);
        assert(string_views(names@)[i as int] == names@[i as int]@);
        assert(string_views(r@) =~= string_views(before).push(j@));
        assert(string_views(r@) =~= joined(dir@, string_views(names@)).take(i + 1));
        i = i + 1;
    }
    assert(joined(dir@, string_views(names@)).take(names@.len() as int) =~= joined(
        dir@,
        string_views(names@),
    ));
    r
}

fn push_numbered(args: &mut Vec<String>, prefix: &str, paths: &Vec<String>)
    ensures
        string_views(final(args)@) == string_views(old(args)@) + numbered(prefix@, string_views(paths@)),
{
    let ghost start = string_views(args@);
    let mut i: usize = 0;
    while i < paths.len()
        invariant
            i <= paths@.len(),
            string_views(args@) == start + numbered(prefix@, string_views(paths@)).take(i as int),
        decreases paths@.len() - i,
    {
        let mut a = owned(prefix);
        push_decimal(&mut a, i as u64);
        push_str(&mut a, "=");
        push_str(&mut a, paths[i].as_str());
        let ghost before = args@;
        args.push(a);
        assert(string_views(paths@)[i as int] == paths@[i as int]@);
        assert(a@ == prefix@ + decimal(i as nat) + "="@ + paths@[i as int]@);
        assert(string_views(args@) =~= string_views(before).push(a@));
        assert(string_views(args@) =~= start + numbered(prefix@, string_views(paths@)).take(i + 1));
        i = i + 1;
    }
    assert(numbered(prefix@, string_views(paths@)).take(paths@.len() as int) =~= numbered(
        prefix@,
        string_views(paths@),
    ));
}

fn push_floppy_args(args: &mut Vec<String>, floppies: &Vec<String>)
    ensures
        string_views(final(args)@) == string_views(old(args)@) + floppy_args(string_views(floppies@)),
{
    let ghost start = string_views(args@);
    if floppies.len() == 0 {
        assert(string_views(args@) =~= start + floppy_args(string_views(floppies@)));
        return;
    }
    args.push(owned("--floppy_drive_count=1"));
    let mut first = owned("--floppy_drive_0=");
    push_str(&mut first, floppies[0].as_str());
    args.push(first);
    let ghost mid = string_views(args@);
    assert(mid =~= start + seq![
        "--floppy_drive_count=1"@,
        "--floppy_drive_0="@ + string_views(floppies@)[0],
    ]);
    push_numbered(args, "--floppy_image_", floppies);
    assert(string_views(args@) =~= start + floppy_args(string_views(floppies@)));
}

fn push_screen_args(args: &mut Vec<String>, fullscreen: bool, scale: u32)
    requires
        fullscreen || scale <= 6710886,
    ensures
        string_views(final(args)@) == string_views(old(args)@) + screen_args(fullscreen, scale),
{
    let ghost start = string_views(args@);
    if fullscreen {
        args.push(owned("--fullscreen=1"));
    } else {
        args.push(owned("--fullscreen=0"));
        let s: u32 = if scale >= 1 {
            scale
        } else {
            1
        };
        let mut w = owned("--window_width=");
        push_decimal(&mut w, (640 * s) as u64);
        let mut h = owned("--window_height=");
        push_decimal(&mut h, (480 * s) as u64);
        args.push(w);
        args.push(h);
    }
    assert(string_views(args@) =~= start + screen_args(fullscreen, scale));
}

/// Compose the FS-UAE command for an Amiga entry: the shipped config or the
/// model, the declared (or found) floppy and hard-drive images, the
/// Kickstart directory, and the window settings; plus the declared
/// sidecars.
pub fn compose_fs_uae(
    entry: &CatalogEntry,
    entry_source: &str,
    install_path: &str,
    user_config: &UserConfig,
    config_is_file: bool,
    found: Option<AmigaSource>,
) -> (r: Result<LaunchPlan, LaunchError>)
    requires
        sizes_window(*entry, entry_source@, *user_config, config_is_file)
            ==> user_config.emulators.fs_uae.window_scale <= 6710886,
    ensures
        compose_fs_uae_spec(
            *entry,
            entry_source@,
            install_path@,
            *user_config,
            config_is_file,
            source_view(found),
        ) == match r {
            Ok(p) => Ok::<PlanView, LaunchErrorView>(p.view()),
            Err(e) => Err(e.view()),
        },
{
    let ghost found_v = source_view(found);
    let fs = match &entry.runtime.fs_uae {
        Some(f) => f,
        None => {
            return Err(LaunchError::MissingFsUaeRuntime { entry_id: entry.game.id.clone() });
        },
    };
    let (program, mut args) = match split_command(user_config.emulators.fs_uae.command.as_str()) {
        Ok(pa) => pa,
        Err(e) => {
            return Err(e);
        },
    };
    let ghost base = string_views(args@);
    let mut floppies = joined_exec(install_path, &fs.floppies);
    let mut hard_drives = joined_exec(install_path, &fs.hard_drives);
    let ghost f0 = string_views(floppies@);
    let ghost h0 = string_views(hard_drives@);
    let mut config_arg: Option<String> = None;
    match &fs.config {
        Some(name) => {
            let p = match shipped_config_path(entry_source, name.as_str()) {
                Ok(p) => p,
                Err(e) => {
                    return Err(e);
                },
            };
            if !config_is_file {
                return Err(LaunchError::ShippedConfigNotFound { path: p });
            }
            config_arg = Some(p);
        },
        None => {},
    }
    let ghost shipped = opt_view(config_arg);
    if config_arg.is_none() && floppies.len() == 0 && hard_drives.len() == 0 {
        match found {
            Some(AmigaSource::Config(p)) => {
                config_arg = Some(p);
            },
            Some(AmigaSource::HardDrive(p)) => {
                hard_drives.push(p);
            },
            Some(AmigaSource::Floppy(p)) => {
                floppies.push(p);
            },
            None => {},
        }
    }
    assert((opt_view(config_arg), string_views(floppies@), string_views(hard_drives@))
        =~= chosen_sources(shipped, f0, h0, found_v));
    let ghost a0 = string_views(args@);
    match config_arg {
        Some(c) => {
            args.push(c);
        },
        None => {
            let mut m = owned("--amiga_model=");
            push_str(&mut m, fs_uae_model_string(fs.model));
            args.push(m);
        },
    }
    assert(string_views(args@) =~= a0 + match opt_view(config_arg) {
        Some(c) => seq![c],
        None => seq!["--amiga_model="@ + model_string(fs.model)],
    });
    push_floppy_args(&mut args, &floppies);
    push_numbered(&mut args, "--hard_drive_", &hard_drives);
    let ghost a1 = string_views(args@);
    match &user_config.emulators.fs_uae.kickstart_path {
        Some(k) => {
            let mut ks = owned("--kickstarts_dir=");
            push_str(&mut ks, k.as_str());
            args.push(ks);
        },
        None => {},
    }
    assert(string_views(args@) =~= a1 + match opt_view(user_config.emulators.fs_uae.kickstart_path) {
        Some(k) => seq!["--kickstarts_dir="@ + k],
        None => Seq::<Seq<char>>::empty(),
    });
    push_screen_args(
        &mut args,
        user_config.emulators.fs_uae.fullscreen,
        user_config.emulators.fs_uae.window_scale,
    );
    let primary = PreparedCommand { program, args, working_dir: None };
    finish_plan(primary, entry, user_config)
}

} // verus!

verus! {

impl LaunchError {
    /// The text of the error.
    pub open spec fn message_view(&self) -> Seq<char> {
        match self {
            LaunchError::MissingDosboxRuntime { entry_id } => "DOS entry "@ + crate::text::debug_quoted(entry_id@) + " is missing [runtime.dosbox]"@,
            LaunchError::MissingFsUaeRuntime { entry_id } => "Amiga entry "@ + crate::text::debug_quoted(entry_id@) + " is missing [runtime.fs_uae]"@,
            LaunchError::InvalidEntrySource { path } => "could not resolve sibling shipped config relative to "@ + path@,
            LaunchError::ShippedConfigNotFound { path } => "shipped emulator config not found: "@ + path@,
            LaunchError::EmptyEmulatorCommand => "emulator command is empty in user config; set [emulators.<emulator>].command (see docs/schema.md §\"User launcher config\")"@,
            LaunchError::UnknownSidecar { name } => "unknown sidecar "@ + crate::text::debug_quoted(name@) + " (v0.1 supports: fluidsynth)"@,
        }
    }

    /// The message shown for the error.
    pub fn message(&self) -> (r: String)
        ensures
            r@ == self.message_view(),
    {
        match self {
            LaunchError::MissingDosboxRuntime { entry_id } => {
                let mut r = crate::text::owned("DOS entry ");
                crate::text::push_debug_quoted(&mut r, entry_id.as_str());
                crate::text::push_str(&mut r, " is missing [runtime.dosbox]");
                r
            },
            LaunchError::MissingFsUaeRuntime { entry_id } => {
                let mut r = crate::text::owned("Amiga entry ");
                crate::text::push_debug_quoted(&mut r, entry_id.as_str());
                crate::text::push_str(&mut r, " is missing [runtime.fs_uae]");
                r
            },
            LaunchError::InvalidEntrySource { path } => {
                let mut r = crate::text::owned("could not resolve sibling shipped config relative to ");
                crate::text::push_str(&mut r, path.as_str());
                r
            },
            LaunchError::ShippedConfigNotFound { path } => {
                let mut r = crate::text::owned("shipped emulator config not found: ");
                crate::text::push_str(&mut r, path.as_str());
                r
            },
            LaunchError::EmptyEmulatorCommand => {
                let mut r = crate::text::owned("emulator command is empty in user config; set [emulators.<emulator>].command (see docs/schema.md §\"User launcher config\")");
                r
            },
            LaunchError::UnknownSidecar { name } => {
                let mut r = crate::text::owned("unknown sidecar ");
                crate::text::push_debug_quoted(&mut r, name.as_str());
                crate::text::push_str(&mut r, " (v0.1 supports: fluidsynth)");
                r
            },
        }
    }
}

} // verus!

verus! {

/// FS-UAE names the four models by their own names, and no two alike.
pub proof fn lemma_model_names(a: AmigaModel, b: AmigaModel)
    ensures
        model_string(AmigaModel::A500) == "A500"@,
        model_string(AmigaModel::A600) == "A600"@,
        model_string(AmigaModel::A1200) == "A1200"@,
        model_string(AmigaModel::A4000) == "A4000"@,
        model_string(a) == model_string(b) ==> a == b,
{
    reveal_strlit("A500");
    reveal_strlit("A600");
    reveal_strlit("A1200");
    reveal_strlit("A4000");
    if model_string(a) == model_string(b) && a != b {
        assert(model_string(a).len() == model_string(b).len());
        assert(model_string(a)[1] == model_string(b)[1]);
        assert(model_string(a)[2] == model_string(b)[2]);
    }
}

/// When an Amiga entry ships no config and nothing was found in its
/// install directory, the game boots on its declared model: the
/// arguments hold `--amiga_model=` and that model's name.
pub proof fn lemma_model_argument(
    entry: CatalogEntry,
    entry_source: Seq<char>,
    install_path: Seq<char>,
    cfg: UserConfig,
    config_is_file: bool,
)
    requires
        entry.runtime.fs_uae matches Some(fs) && fs.config is None,
    ensures
        compose_fs_uae_spec(entry, entry_source, install_path, cfg, config_is_file, None) matches Ok(p)
            ==> p.0.1.contains(
            match entry.runtime.fs_uae.unwrap().model {
                AmigaModel::A500 => "--amiga_model=A500"@,
                AmigaModel::A600 => "--amiga_model=A600"@,
                AmigaModel::A1200 => "--amiga_model=A1200"@,
                AmigaModel::A4000 => "--amiga_model=A4000"@,
            },
        ),
{
    let fs = entry.runtime.fs_uae.unwrap();
    reveal_strlit("--amiga_model=");
    reveal_strlit("A500");
    reveal_strlit("A600");
    reveal_strlit("A1200");
    reveal_strlit("A4000");
    reveal_strlit("--amiga_model=A500");
    reveal_strlit("--amiga_model=A600");
    reveal_strlit("--amiga_model=A1200");
    reveal_strlit("--amiga_model=A4000");
    let want = match fs.model {
        AmigaModel::A500 => "--amiga_model=A500"@,
        AmigaModel::A600 => "--amiga_model=A600"@,
        AmigaModel::A1200 => "--amiga_model=A1200"@,
        AmigaModel::A4000 => "--amiga_model=A4000"@,
    };
    assert("--amiga_model="@ + model_string(fs.model) =~= want);
    if let Some(pa) = split_command_spec(cfg.emulators.fs_uae.command@) {
        let c = chosen_sources(
            None,
            joined(install_path, string_views(fs.floppies@)),
            joined(install_path, string_views(fs.hard_drives@)),
            None,
        );
        assert(c.0 is None);
        let args = fs_uae_args(
            pa.1,
            c.0,
            fs.model,
            c.1,
            c.2,
            opt_view(cfg.emulators.fs_uae.kickstart_path),
            cfg.emulators.fs_uae.fullscreen,
            cfg.emulators.fs_uae.window_scale,
        );
        assert(args[pa.1.len() as int] == want);
    }
}

} // verus!
