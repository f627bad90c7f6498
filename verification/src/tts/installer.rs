//! Decisions of the automatic installation of Piper and of the default
//! voice: which release asset fits the platform, where it is downloaded
//! from, whether a download is plausible, how it is unpacked, and where an
//! installed binary is found.
//!
//! The application installs Piper itself, in the user's data folder, at
//! start-up or on demand, rather than relying on a manual script. It targets
//! the last Piper release published before its repository was archived.

use vstd::prelude::*;
use crate::error::AppError;
use crate::text;
use crate::text::{chars_of, chars_eq, push_str_chars};

verus! {

/// Last Piper release published before its repository was archived.
pub const PIPER_VERSION: &'static str = "2023.11.14-2";

/// Smallest plausible size of a Piper archive: a download below it is most
/// likely an error page rather than the binary.
pub const MIN_PLAUSIBLE_ARCHIVE_BYTES: u64 = 5 * 1024 * 1024;

/// Smallest plausible size of a voice model (a valid `.onnx` model weighs
/// tens of megabytes).
pub const MIN_PLAUSIBLE_VOICE_BYTES: u64 = 1024 * 1024;

/// Voice installed by default.
pub const DEFAULT_VOICE_ID: &'static str = "fr_FR-siwis-medium";

/// Where the default voice is downloaded from.
pub const DEFAULT_VOICE_BASE_URL: &'static str = "https://huggingface.co/rhasspy/piper-voices/resolve/main/fr/fr_FR/siwis/medium";

/// Progress of the installation, shown by the interface.
#[derive(Debug, Clone)]
pub enum InstallProgress {
    CheckingExisting,
    Downloading { label: String, percent: Option<u8> },
    Extracting,
    Verifying,
    DownloadingVoice { label: String },
    Done,
    Error { message: String },
}

/// Release asset published for an operating system and an architecture
/// (as `std::env::consts::OS` and `ARCH` name them).
pub open spec fn asset_for(os: Seq<char>, arch: Seq<char>) -> Option<Seq<char>> {
    if os == "windows"@ && arch == "x86_64"@ {
        Some("piper_windows_amd64.zip"@)
    } else if os == "linux"@ && arch == "x86_64"@ {
        Some("piper_linux_x86_64.tar.gz"@)
    } else if os == "linux"@ && arch == "aarch64"@ {
        Some("piper_linux_aarch64.tar.gz"@)
    } else if os == "linux"@ && arch == "arm"@ {
        Some("piper_linux_armv7l.tar.gz"@)
    } else if os == "macos"@ && arch == "x86_64"@ {
        Some("piper_macos_x64.tar.gz"@)
    } else if os == "macos"@ && arch == "aarch64"@ {
        Some("piper_macos_aarch64.tar.gz"@)
    } else {
        None
    }
}

/// The Piper release publishes exactly six pre-built binaries, one per
/// supported platform; each of these platforms gets its published archive
/// (`piper_windows_amd64.zip`, `piper_linux_x86_64.tar.gz`,
/// `piper_linux_aarch64.tar.gz`, `piper_linux_armv7l.tar.gz`,
/// `piper_macos_x64.tar.gz`, `piper_macos_aarch64.tar.gz`), and every other
/// platform gets none.
pub proof fn law_published_assets(os: Seq<char>, arch: Seq<char>)
    ensures
        asset_for("windows"@, "x86_64"@) == Some("piper_windows_amd64.zip"@),
        asset_for("linux"@, "x86_64"@) == Some("piper_linux_x86_64.tar.gz"@),
        asset_for("linux"@, "aarch64"@) == Some("piper_linux_aarch64.tar.gz"@),
        asset_for("linux"@, "arm"@) == Some("piper_linux_armv7l.tar.gz"@),
        asset_for("macos"@, "x86_64"@) == Some("piper_macos_x64.tar.gz"@),
        asset_for("macos"@, "aarch64"@) == Some("piper_macos_aarch64.tar.gz"@),
        asset_for(os, arch) is Some <==> ({
            ||| os == "windows"@ && arch == "x86_64"@
            ||| os == "linux"@ && (arch == "x86_64"@ || arch == "aarch64"@ || arch == "arm"@)
            ||| os == "macos"@ && (arch == "x86_64"@ || arch == "aarch64"@)
        }),
{
    reveal_strlit("windows");
    reveal_strlit("linux");
    reveal_strlit("macos");
    reveal_strlit("x86_64");
    reveal_strlit("aarch64");
    reveal_strlit("arm");
    assert("windows"@.len() == 7);
    assert("linux"@.len() == 5);
    assert("macos"@.len() == 5);
    assert("linux"@[0] != "macos"@[0]);
    assert("x86_64"@.len() == 6);
    assert("aarch64"@.len() == 7);
    assert("arm"@.len() == 3);
}

fn is(s: &[char], lit: &str) -> (b: bool)
    ensures
        b == (s@ == lit@),
{
    let l = chars_of(lit);
    chars_eq(s, l.as_slice())
}

/// The Piper release asset for the platform `os`/`arch`; the platforms
/// without a pre-built binary are refused with a message inviting a manual
/// installation.
pub fn asset_name_for_platform(os: &str, arch: &str) -> (r: Result<&'static str, AppError>)
    ensures
        match asset_for(os@, arch@) {
            Some(a) => r matches Ok(name) && name@ == a,
            None => r matches Err(AppError::TtsUnavailable(m)) && m@
                == "Aucun binaire Piper pré-compilé n'est publié pour cette plateforme ("@ + os@ + "/"@
                + arch@
                + "). Installez Piper manuellement et renseignez son chemin dans les paramètres avancés."@,
        },
{
    let o = chars_of(os);
    let a = chars_of(arch);
    if is(o.as_slice(), "windows") && is(a.as_slice(), "x86_64") {
        Ok("piper_windows_amd64.zip")
    } else if is(o.as_slice(), "linux") && is(a.as_slice(), "x86_64") {
        Ok("piper_linux_x86_64.tar.gz")
    } else if is(o.as_slice(), "linux") && is(a.as_slice(), "aarch64") {
        Ok("piper_linux_aarch64.tar.gz")
    } else if is(o.as_slice(), "linux") && is(a.as_slice(), "arm") {
        Ok("piper_linux_armv7l.tar.gz")
    } else if is(o.as_slice(), "macos") && is(a.as_slice(), "x86_64") {
        Ok("piper_macos_x64.tar.gz")
    } else if is(o.as_slice(), "macos") && is(a.as_slice(), "aarch64") {
        Ok("piper_macos_aarch64.tar.gz")
    } else {
        let mut m = String::new();
        push_str_chars(&mut m, "Aucun binaire Piper pré-compilé n'est publié pour cette plateforme (");
        push_str_chars(&mut m, os);
        push_str_chars(&mut m, "/");
        push_str_chars(&mut m, arch);
        push_str_chars(
            &mut m,
            "). Installez Piper manuellement et renseignez son chemin dans les paramètres avancés.",
        );
        Err(AppError::TtsUnavailable(m))
    }
}

/// Download address of a release asset.
pub fn release_url(asset: &str) -> (s: String)
    ensures
        s@ == "https://github.com/rhasspy/piper/releases/download/"@ + PIPER_VERSION@ + "/"@ + asset@,
{
    let mut s = String::new();
    push_str_chars(&mut s, "https://github.com/rhasspy/piper/releases/download/");
    push_str_chars(&mut s, PIPER_VERSION);
    push_str_chars(&mut s, "/");
    push_str_chars(&mut s, asset);
    s
}

/// Download address of a file of the default voice.
pub fn default_voice_url(file_name: &str) -> (s: String)
    ensures
        s@ == DEFAULT_VOICE_BASE_URL@ + "/"@ + file_name@,
{
    let mut s = String::new();
    push_str_chars(&mut s, DEFAULT_VOICE_BASE_URL);
    push_str_chars(&mut s, "/");
    push_str_chars(&mut s, file_name);
    s
}

/// File names of the default voice: its model and the model's settings.
pub fn default_voice_files() -> (r: (String, String))
    ensures
        r.0@ == DEFAULT_VOICE_ID@ + ".onnx"@,
        r.1@ == DEFAULT_VOICE_ID@ + ".onnx.json"@,
{
    let mut model = String::new();
    push_str_chars(&mut model, DEFAULT_VOICE_ID);
    push_str_chars(&mut model, ".onnx");
    let mut config = String::new();
    push_str_chars(&mut config, DEFAULT_VOICE_ID);
    push_str_chars(&mut config, ".onnx.json");
    (model, config)
}

/// A downloaded archive of `len` bytes from `url` is kept only when it is
/// plausibly large.
pub fn check_archive_size(len: u64, url: &str) -> (r: Result<(), AppError>)
    ensures
        len >= MIN_PLAUSIBLE_ARCHIVE_BYTES ==> r is Ok,
        len < MIN_PLAUSIBLE_ARCHIVE_BYTES ==> (r matches Err(AppError::TtsUnavailable(m)) && m@
            == "Le fichier téléchargé ("@ + text::decimal(len as nat)
            + " octets) est trop petit pour être une archive Piper valide — probablement une page d'erreur renvoyée par le serveur plutôt que le binaire. URL tentée : "@
            + url@),
{
    if len >= MIN_PLAUSIBLE_ARCHIVE_BYTES {
        return Ok(());
    }
    let mut m = String::new();
    push_str_chars(&mut m, "Le fichier téléchargé (");
    text::push_decimal(&mut m, len);
    push_str_chars(
        &mut m,
        " octets) est trop petit pour être une archive Piper valide — probablement une page d'erreur renvoyée par le serveur plutôt que le binaire. URL tentée : ",
    );
    push_str_chars(&mut m, url);
    Err(AppError::TtsUnavailable(m))
}

/// A downloaded voice model of `len` bytes is kept only when it is
/// plausibly large.
pub fn check_voice_model_size(len: u64) -> (r: Result<(), AppError>)
    ensures
        len >= MIN_PLAUSIBLE_VOICE_BYTES ==> r is Ok,
        len < MIN_PLAUSIBLE_VOICE_BYTES ==> (r matches Err(AppError::TtsUnavailable(m)) && m@
            == "Le modèle de voix téléchargé ("@ + text::decimal(len as nat) + " octets) est anormalement petit."@),
{
    if len >= MIN_PLAUSIBLE_VOICE_BYTES {
        return Ok(());
    }
    let mut m = String::new();
    push_str_chars(&mut m, "Le modèle de voix téléchargé (");
    text::push_decimal(&mut m, len);
    push_str_chars(&mut m, " octets) est anormalement petit.");
    Err(AppError::TtsUnavailable(m))
}

/// How a release archive is unpacked.
#[derive(Debug, Clone, Copy, PartialEq, Eq, Structural)]
pub enum ArchiveKind {
    Zip,
    TarGz,
}

/// `s` ends with `suffix`.
pub open spec fn ends_with(s: Seq<char>, suffix: Seq<char>) -> bool {
    suffix.len() <= s.len() && s.subrange(s.len() - suffix.len(), s.len() as int) == suffix
}

fn has_suffix(s: &[char], suffix: &str) -> (b: bool)
    ensures
        b == ends_with(s@, suffix@),
{
    let x = chars_of(suffix);
    if x.len() > s.len() {
        return false;
    }
    let n = s.len();
    chars_eq(&s[n - x.len()..n], x.as_slice())
}

/// The format of an archive from its name: `.zip` or `.tar.gz`; any other
/// name is refused.
pub fn archive_kind(asset_name: &str) -> (r: Result<ArchiveKind, AppError>)
    ensures
        ends_with(asset_name@, ".zip"@) ==> r == Ok::<ArchiveKind, AppError>(ArchiveKind::Zip),
        !ends_with(asset_name@, ".zip"@) && ends_with(asset_name@, ".tar.gz"@) ==> r == Ok::<
            ArchiveKind,
            AppError,
        >(ArchiveKind::TarGz),
        !ends_with(asset_name@, ".zip"@) && !ends_with(asset_name@, ".tar.gz"@) ==> (r matches Err(
            AppError::TtsUnavailable(m),
        ) && m@ == "Format d'archive non pris en charge : "@ + asset_name@),
{
    let cs = chars_of(asset_name);
    if has_suffix(cs.as_slice(), ".zip") {
        Ok(ArchiveKind::Zip)
    } else if has_suffix(cs.as_slice(), ".tar.gz") {
        Ok(ArchiveKind::TarGz)
    } else {
        let mut m = String::new();
        push_str_chars(&mut m, "Format d'archive non pris en charge : ");
        push_str_chars(&mut m, asset_name);
        Err(AppError::TtsUnavailable(m))
    }
}

// ---------------------------------------------------------------------------
// Finding an installed binary
// ---------------------------------------------------------------------------

/// Name of the Piper executable.
pub fn binary_file_name(is_windows: bool) -> (s: &'static str)
    ensures
        s@ == (if is_windows { "piper.exe"@ } else { "piper"@ }),
{
    if is_windows {
        "piper.exe"
    } else {
        "piper"
    }
}

/// What was read of a folder: whether it holds the Piper executable, and
/// its sub-folders in the order the system lists them.
#[derive(Debug)]
pub struct DirScan {
    pub path: String,
    pub has_binary: bool,
    pub subdirs: Vec<DirScan>,
}

/// First folder among `dirs` (explored depth first, `depth` levels deep)
/// that holds the executable.
pub open spec fn first_binary_dir(dirs: Seq<DirScan>, depth: nat) -> Option<Seq<char>>
    decreases depth, dirs.len(),
{
    if depth == 0 || dirs.len() == 0 {
        None
    } else if dirs[0].has_binary {
        Some(dirs[0].path@)
    } else {
        match first_binary_dir(dirs[0].subdirs@, (depth - 1) as nat) {
            Some(p) => Some(p),
            None => first_binary_dir(dirs.drop_first(), depth),
        }
    }
}

/// Folder holding the installed executable: the installation folder
/// itself, else the first sub-folder, at most two levels deep, that holds
/// it (an archive may unpack into a nested folder).
pub open spec fn installed_binary_dir(root: DirScan) -> Option<Seq<char>> {
    if root.has_binary {
        Some(root.path@)
    } else {
        first_binary_dir(root.subdirs@, 2)
    }
}

fn search_dirs(dirs: &Vec<DirScan>, depth: u8) -> (r: Option<String>)
    ensures
        match r {
            Some(p) => first_binary_dir(dirs@, depth as nat) == Some(p@),
            None => first_binary_dir(dirs@, depth as nat) is None,
        },
    decreases depth,
{
    if depth == 0 {
        return None;
    }
    let mut i: usize = 0;
    assert(dirs@.skip(0) =~= dirs@);
    while i < dirs.len()
        invariant
            i <= dirs@.len(),
            depth > 0,
            first_binary_dir(dirs@, depth as nat) == first_binary_dir(dirs@.skip(i as int), depth as nat),
        decreases dirs@.len() - i,
    {
        let ghost rest = dirs@.skip(i as int);
        assert(rest[0] == dirs@[i as int]);
        assert(rest.drop_first() =~= dirs@.skip(i + 1));
        if dirs[i].has_binary {
            return Some(dirs[i].path.clone());
        }
        match search_dirs(&dirs[i].subdirs, depth - 1) {
            Some(p) => {
                return Some(p);
            },
            None => {},
        }
        i = i + 1;
    }
    assert(dirs@.skip(i as int).len() == 0);
    None
}

/// Folder holding the installed Piper executable, if any, from a scan of
/// the installation folder two levels deep.
pub fn find_installed_binary(install_dir: &DirScan) -> (r: Option<String>)
    ensures
        match r {
            Some(p) => installed_binary_dir(*install_dir) == Some(p@),
            None => installed_binary_dir(*install_dir) is None,
        },
{
    if install_dir.has_binary {
        return Some(install_dir.path.clone());
    }
    search_dirs(&install_dir.subdirs, 2)
}

/// A candidate path for the executable and whether a file exists there.
#[derive(Debug, Clone)]
pub struct PathProbe {
    pub path: String,
    pub is_file: bool,
}

/// The executable known at start-up, without downloading anything: the
/// path set in the settings when a file exists there, else the copy
/// bundled with the application when it exists, else none (the automatic
/// installation then takes over). No lookup in `PATH`: it could not be
/// checked cheaply.
pub fn resolve_piper_binary(explicit: Option<PathProbe>, bundled: Option<PathProbe>) -> (r: Option<String>)
    ensures
        match explicit {
            Some(e) if e.is_file => r matches Some(p) && p@ == e.path@,
            _ => match bundled {
                Some(b) if b.is_file => r matches Some(p) && p@ == b.path@,
                _ => r is None,
            },
        },
{
    if let Some(e) = explicit {
        if e.is_file {
            return Some(e.path);
        }
    }
    if let Some(b) = bundled {
        if b.is_file {
            return Some(b.path);
        }
    }
    None
}

fn tts_error(prefix: &str, detail: &str) -> (e: AppError)
    ensures
        e matches AppError::TtsUnavailable(m) && m@ == prefix@ + detail@,
{
    let mut m = String::new();
    push_str_chars(&mut m, prefix);
    push_str_chars(&mut m, detail);
    AppError::TtsUnavailable(m)
}

/// Error reported when an archive was unpacked but holds no executable.
pub fn binary_missing_after_extract_error() -> (e: AppError)
    ensures
        e matches AppError::TtsUnavailable(m) && m@
            == "L'archive Piper a été téléchargée et extraite, mais aucun exécutable n'a été retrouvé à l'intérieur. La structure de l'archive a peut-être changé côté éditeur."@,
{
    AppError::TtsUnavailable(
        "L'archive Piper a été téléchargée et extraite, mais aucun exécutable n'a été retrouvé à l'intérieur. La structure de l'archive a peut-être changé côté éditeur.".to_owned(),
    )
}

/// Error reported when the installed binary cannot be run.
pub fn binary_cannot_run_error(detail: &str) -> (e: AppError)
    ensures
        e matches AppError::TtsUnavailable(m) && m@ == "Le binaire Piper téléchargé n'a pas pu être exécuté ("@
            + detail@ + "). Il est peut-être incompatible avec votre système, ou bloqué par un antivirus."@,
{
    let mut m = String::new();
    push_str_chars(&mut m, "Le binaire Piper téléchargé n'a pas pu être exécuté (");
    push_str_chars(&mut m, detail);
    push_str_chars(
        &mut m,
        "). Il est peut-être incompatible avec votre système, ou bloqué par un antivirus.",
    );
    AppError::TtsUnavailable(m)
}

/// Error reported when the installed binary runs but reports a failure.
pub fn binary_failed_error(stderr: &str) -> (e: AppError)
    ensures
        e matches AppError::TtsUnavailable(m) && m@
            == "Le binaire Piper téléchargé s'est exécuté mais a retourné une erreur : "@ + stderr@,
{
    tts_error("Le binaire Piper téléchargé s'est exécuté mais a retourné une erreur : ", stderr)
}

/// Error reported when a download answers with an error status.
pub fn download_failed_error(label: &str, detail: &str) -> (e: AppError)
    ensures
        e matches AppError::TtsUnavailable(m) && m@ == "Téléchargement échoué ("@ + label@ + ") : "@
            + detail@,
{
    let mut m = String::new();
    push_str_chars(&mut m, "Téléchargement échoué (");
    push_str_chars(&mut m, label);
    push_str_chars(&mut m, ") : ");
    push_str_chars(&mut m, detail);
    AppError::TtsUnavailable(m)
}

/// Error reported when a download stream breaks.
pub fn download_interrupted_error(detail: &str) -> (e: AppError)
    ensures
        e matches AppError::TtsUnavailable(m) && m@ == "Flux de téléchargement interrompu : "@ + detail@,
{
    tts_error("Flux de téléchargement interrompu : ", detail)
}

/// Error reported when the voice settings file cannot be downloaded.
pub fn voice_config_download_error(detail: &str) -> (e: AppError)
    ensures
        e matches AppError::TtsUnavailable(m) && m@ == "Téléchargement de la config de voix échoué : "@
            + detail@,
{
    tts_error("Téléchargement de la config de voix échoué : ", detail)
}

/// Error reported when an archive cannot be read or unpacked; `kind` names
/// the failing step.
pub fn extraction_error(kind: ArchiveKind, opening: bool, detail: &str) -> (e: AppError)
    ensures
        e matches AppError::TtsUnavailable(m) && m@ == match (kind, opening) {
            (ArchiveKind::Zip, true) => "Archive Piper invalide (.zip) : "@ + detail@,
            (ArchiveKind::Zip, false) => "Échec d'extraction de l'archive .zip : "@ + detail@,
            (ArchiveKind::TarGz, _) => "Échec d'extraction de l'archive .tar.gz : "@ + detail@,
        },
{
    match kind {
        ArchiveKind::Zip => if opening {
            tts_error("Archive Piper invalide (.zip) : ", detail)
        } else {
            tts_error("Échec d'extraction de l'archive .zip : ", detail)
        },
        ArchiveKind::TarGz => tts_error("Échec d'extraction de l'archive .tar.gz : ", detail),
    }
}

} // verus!
