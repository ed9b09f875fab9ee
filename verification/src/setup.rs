//! Host-dependency installation: which distribution the host runs, which
//! install action fixes a missing dependency there, and the commands that
//! perform it.

use vstd::prelude::*;
use crate::doctor::ProbeKind;
use crate::text::{string_views, 
    chars_of, lines, lines_exec, lower_seq, lower_vec, owned, seq_eq, slice_vec, starts_with,
    starts_with_exec, trim, trim_char, trim_char_exec, trim_exec, views, words, words_exec,
};

verus! {

#[derive(Debug, Clone, Copy, PartialEq, Eq)]
pub enum Distro {
    DebianLike,
    Unknown,
}

pub enum InstallAction {
    Apt(Vec<&'static str>),
    FlatpakUserApp { remote: &'static str, remote_url: &'static str, app_id: &'static str },
    Informational(&'static str),
}

pub open spec fn id_key() -> Seq<char> {
    seq!['I', 'D', '=']
}

pub open spec fn id_like_key() -> Seq<char> {
    seq!['I', 'D', '_', 'L', 'I', 'K', 'E', '=']
}

/// An `os-release` value without surrounding whitespace and quotes.
pub open spec fn strip_quotes(s: Seq<char>) -> Seq<char> {
    trim_char(trim_char(trim(s), '"'), '\'')
}

/// The `ID` and `ID_LIKE` values of an `os-release` text, lowercased; a
/// later line overrides an earlier one.
pub open spec fn scan_os_release(
    ls: Seq<Seq<char>>,
    id: Option<Seq<char>>,
    like: Option<Seq<char>>,
) -> (Option<Seq<char>>, Option<Seq<char>>)
    decreases ls.len(),
{
    if ls.len() == 0 {
        (id, like)
    } else {
        let line = trim(ls[0]);
        if starts_with(line, id_key()) {
            scan_os_release(
                ls.drop_first(),
                Some(lower_seq(strip_quotes(line.skip(3)))),
                like,
            )
        } else if starts_with(line, id_like_key()) {
            scan_os_release(
                ls.drop_first(),
                id,
                Some(lower_seq(strip_quotes(line.skip(8)))),
            )
        } else {
            scan_os_release(ls.drop_first(), id, like)
        }
    }
}

pub open spec fn is_debian_word(w: Seq<char>) -> bool {
    w == seq!['d', 'e', 'b', 'i', 'a', 'n'] || w == seq!['u', 'b', 'u', 'n', 't', 'u']
}

/// Some whitespace-separated word of `v` is `debian` or `ubuntu`.
pub open spec fn names_debian(v: Option<Seq<char>>) -> bool {
    match v {
        Some(s) => has_debian_word_spec(s),
        None => false,
    }
}

pub open spec fn has_debian_word_spec(s: Seq<char>) -> bool {
    exists|i: int| 0 <= i < words(s).len() && is_debian_word(#[trigger] words(s)[i])
}

pub open spec fn distro_of(os_release: Seq<char>) -> Distro {
    let (id, like) = scan_os_release(lines(os_release), None, None);
    if names_debian(id) || names_debian(like) {
        Distro::DebianLike
    } else {
        Distro::Unknown
    }
}

fn strip_quotes_exec(s: &[char]) -> (r: Vec<char>)
    ensures
        r@ == strip_quotes(s@),
{
    let t = trim_exec(s);
    let a = trim_char_exec(t.as_slice(), '"');
    trim_char_exec(a.as_slice(), '\'')
}

fn has_debian_word(s: &[char]) -> (r: bool)
    ensures
        r == has_debian_word_spec(s@),
{
    let ws = words_exec(s, false);
    let debian = ['d', 'e', 'b', 'i', 'a', 'n'];
    let ubuntu = ['u', 'b', 'u', 'n', 't', 'u'];
    assert(debian@ =~= seq!['d', 'e', 'b', 'i', 'a', 'n']);
    assert(ubuntu@ =~= seq!['u', 'b', 'u', 'n', 't', 'u']);
    assert(words(s@).len() == ws@.len());
    let mut i: usize = 0;
    while i < ws.len()
        invariant
            i <= ws@.len(),
            views(ws@) == words(s@),
            words(s@).len() == ws@.len(),
            debian@ == seq!['d', 'e', 'b', 'i', 'a', 'n'],
            ubuntu@ == seq!['u', 'b', 'u', 'n', 't', 'u'],
            forall|k: int| 0 <= k < i ==> !is_debian_word(#[trigger] words(s@)[k]),
        decreases ws@.len() - i,
    {
        assert(words(s@)[i as int] == ws@[i as int]@);
        if seq_eq(ws[i].as_slice(), debian.as_slice()) || seq_eq(ws[i].as_slice(), ubuntu.as_slice()) {
            assert(is_debian_word(words(s@)[i as int]));
            return true;
        }
        i = i + 1;
    }
    false
}

fn option_names_debian(v: &Option<Vec<char>>) -> (r: bool)
    ensures
        r == names_debian(match v {
            Some(x) => Some(x@),
            None => None,
        }),
{
    match v {
        None => false,
        Some(s) => has_debian_word(s.as_slice()),
    }
}

/// Classify the host from the text of `/etc/os-release`: Debian-like when
/// `ID` or `ID_LIKE` names `debian` or `ubuntu`.
pub fn detect_distro_from(os_release: &str) -> (r: Distro)
    ensures
        r == distro_of(os_release@),
{
    let text = chars_of(os_release);
    let ls = lines_exec(text.as_slice());
    let id_k = ['I', 'D', '='];
    let like_k = ['I', 'D', '_', 'L', 'I', 'K', 'E', '='];
    assert(id_k@ =~= id_key());
    assert(like_k@ =~= id_like_key());
    let mut id: Option<Vec<char>> = None;
    let mut like: Option<Vec<char>> = None;
    let mut k: usize = 0;
    assert(views(ls@).skip(0) =~= views(ls@));
    while k < ls.len()
        invariant
            k <= ls@.len(),
            views(ls@) == lines(os_release@),
            id_k@ == id_key(),
            like_k@ == id_like_key(),
            scan_os_release(lines(os_release@), None, None) == scan_os_release(
                views(ls@).skip(k as int),
                match id {
                    Some(x) => Some(x@),
                    None => None,
                },
                match like {
                    Some(x) => Some(x@),
                    None => None,
                },
            ),
        decreases ls@.len() - k,
    {
        let ghost rest = views(ls@).skip(k as int);
        assert(rest[0] == ls@[k as int]@);
        assert(rest.drop_first() =~= views(ls@).skip(k + 1));
        let line = trim_exec(ls[k].as_slice());
        if starts_with_exec(line.as_slice(), id_k.as_slice()) {
            let n = line.len();
            let rest_v = slice_vec(line.as_slice(), 3, n);
            assert(rest_v@ =~= line@.skip(3));
            let q = strip_quotes_exec(rest_v.as_slice());
            id = Some(lower_vec(q.as_slice()));
        } else if starts_with_exec(line.as_slice(), like_k.as_slice()) {
            let n = line.len();
            let rest_v = slice_vec(line.as_slice(), 8, n);
            assert(rest_v@ =~= line@.skip(8));
            let q = strip_quotes_exec(rest_v.as_slice());
            like = Some(lower_vec(q.as_slice()));
        }
        k = k + 1;
    }
    if option_names_debian(&id) || option_names_debian(&like) {
        Distro::DebianLike
    } else {
        Distro::Unknown
    }
}

pub open spec fn apt_for(distro: Distro, package: Seq<char>, r: Option<InstallAction>) -> bool {
    match distro {
        Distro::DebianLike => r matches Some(InstallAction::Apt(p)) && p@.len() == 1 && p@[0]@
            == package,
        Distro::Unknown => r is None,
    }
}

/// The install action that would supply a missing dependency of `kind` on
/// `distro`: DOSBox-Staging always comes from Flathub, a game directory only
/// gets advice, and the other dependencies are apt packages on Debian-like
/// hosts and have no action elsewhere.
pub fn action_for(kind: &ProbeKind, distro: Distro) -> (r: Option<InstallAction>)
    ensures
        match kind {
            ProbeKind::DosboxFlatpak => r matches Some(
                InstallAction::FlatpakUserApp { remote, remote_url, app_id },
            ) && remote@ == "flathub"@ && remote_url@
                == "https://flathub.org/repo/flathub.flatpakrepo"@ && app_id@
                == "io.github.dosbox-staging"@,
            ProbeKind::GameInstallDir(_) => r matches Some(InstallAction::Informational(_)),
            ProbeKind::Fluidsynth => apt_for(distro, "fluidsynth"@, r),
            ProbeKind::Soundfont => apt_for(distro, "fluid-soundfont-gm"@, r),
            ProbeKind::Innoextract => apt_for(distro, "innoextract"@, r),
            ProbeKind::FsUae => apt_for(distro, "fs-uae"@, r),
            ProbeKind::Unzip => apt_for(distro, "unzip"@, r),
            ProbeKind::Companion(_) => r is None,
        },
{
    match kind {
        ProbeKind::DosboxFlatpak => Some(
            InstallAction::FlatpakUserApp {
                remote: "flathub",
                remote_url: "https://flathub.org/repo/flathub.flatpakrepo",
                app_id: "io.github.dosbox-staging",
            },
        ),
        ProbeKind::GameInstallDir(_) => Some(
            InstallAction::Informational(
                "Acquire and extract the game per the collection guide; the launcher cannot install game files.",
            ),
        ),
        ProbeKind::Fluidsynth => apt_if_debian(distro, "fluidsynth"),
        ProbeKind::Soundfont => apt_if_debian(distro, "fluid-soundfont-gm"),
        ProbeKind::Innoextract => apt_if_debian(distro, "innoextract"),
        ProbeKind::FsUae => apt_if_debian(distro, "fs-uae"),
        ProbeKind::Unzip => apt_if_debian(distro, "unzip"),
        ProbeKind::Companion(_) => None,
    }
}

fn apt_if_debian(distro: Distro, package: &'static str) -> (r: Option<InstallAction>)
    ensures
        apt_for(distro, package@, r),
{
    match distro {
        Distro::DebianLike => {
            let mut v: Vec<&'static str> = Vec::new();
            v.push(package);
            Some(InstallAction::Apt(v))
        },
        Distro::Unknown => None,
    }
}

pub open spec fn command_views(v: Seq<Vec<String>>) -> Seq<Seq<Seq<char>>> {
    v.map_values(|c: Vec<String>| string_views(c@))
}

pub open spec fn str_views(v: Seq<&'static str>) -> Seq<Seq<char>> {
    v.map_values(|s: &'static str| s@)
}

/// The argv vectors that perform `action`: one privileged `apt install`
/// naming every package, or a Flathub `remote-add` followed by the app's
/// install; advice yields no command.
pub fn build_commands(action: &InstallAction) -> (r: Vec<Vec<String>>)
    ensures
        command_views(r@) == match action {
            InstallAction::Apt(packages) => seq![
                seq!["pkexec"@, "apt"@, "install"@, "-y"@] + str_views(packages@),
            ],
            InstallAction::FlatpakUserApp { remote, remote_url, app_id } => seq![
                seq![
                    "flatpak"@,
                    "remote-add"@,
                    "--user"@,
                    "--if-not-exists"@,
                    remote@,
                    remote_url@,
                ],
                seq!["flatpak"@, "install"@, "--user"@, "-y"@, remote@, app_id@],
            ],
            InstallAction::Informational(_) => Seq::empty(),
        },
{
    match action {
        InstallAction::Apt(packages) => {
            let mut cmd: Vec<String> = Vec::new();
            cmd.push(owned("pkexec"));
            cmd.push(owned("apt"));
            cmd.push(owned("install"));
            cmd.push(owned("-y"));
            let ghost head = string_views(cmd@);
            assert(head =~= seq!["pkexec"@, "apt"@, "install"@, "-y"@]);
            let mut i: usize = 0;
            while i < packages.len()
                invariant
                    i <= packages@.len(),
                    string_views(cmd@) == head + str_views(packages@.take(i as int)),
                decreases packages@.len() - i,
            {
                let ghost before = cmd@;
                cmd.push(owned(packages[i]));
                assert(string_views(cmd@) =~= string_views(before).push(packages@[i as int]@));
                assert(str_views(packages@.take(i + 1)) =~= str_views(packages@.take(i as int)).push(
                    packages@[i as int]@,
                ));
                i = i + 1;
            }
            assert(packages@.take(packages@.len() as int) =~= packages@);
            let mut r: Vec<Vec<String>> = Vec::new();
            r.push(cmd);
            assert(command_views(r@) =~= seq![string_views(cmd@)]);
            r
        },
        InstallAction::FlatpakUserApp { remote, remote_url, app_id } => {
            let mut a: Vec<String> = Vec::new();
            a.push(owned("flatpak"));
            a.push(owned("remote-add"));
            a.push(owned("--user"));
            a.push(owned("--if-not-exists"));
            a.push(owned(remote));
            a.push(owned(remote_url));
            let mut b: Vec<String> = Vec::new();
            b.push(owned("flatpak"));
            b.push(owned("install"));
            b.push(owned("--user"));
            b.push(owned("-y"));
            b.push(owned(remote));
            b.push(owned(app_id));
            let mut r: Vec<Vec<String>> = Vec::new();
            r.push(a);
            r.push(b);
            assert(command_views(r@) =~= seq![string_views(a@), string_views(b@)]);
            assert(string_views(a@) =~= seq![
                "flatpak"@,
                "remote-add"@,
                "--user"@,
                "--if-not-exists"@,
                remote@,
                remote_url@,
            ]);
            assert(string_views(b@) =~= seq![
                "flatpak"@,
                "install"@,
                "--user"@,
                "-y"@,
                remote@,
                app_id@,
            ]);
            r
        },
        InstallAction::Informational(_) => {
            let r: Vec<Vec<String>> = Vec::new();
            assert(command_views(r@) =~= Seq::<Seq<Seq<char>>>::empty());
            r
        },
    }
}

} // verus!
