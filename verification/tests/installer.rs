use twitch_voice_reader::tts::installer::{
    binary_cannot_run_error, binary_failed_error, binary_missing_after_extract_error, download_failed_error,
    download_interrupted_error, extraction_error, voice_config_download_error,
};
use twitch_voice_reader::error::AppError;
use twitch_voice_reader::tts::installer::{
    archive_kind, asset_name_for_platform, binary_file_name, check_archive_size, check_voice_model_size,
    default_voice_files, default_voice_url, find_installed_binary, release_url, resolve_piper_binary,
    ArchiveKind, DirScan, PathProbe,
};

fn dir(path: &str, has_binary: bool, subdirs: Vec<DirScan>) -> DirScan {
    DirScan { path: path.into(), has_binary, subdirs }
}

#[test]
fn assets_per_platform() {
    assert_eq!(asset_name_for_platform("windows", "x86_64").ok(), Some("piper_windows_amd64.zip"));
    assert_eq!(asset_name_for_platform("linux", "arm").ok(), Some("piper_linux_armv7l.tar.gz"));
    assert_eq!(asset_name_for_platform("macos", "aarch64").ok(), Some("piper_macos_aarch64.tar.gz"));
    match asset_name_for_platform("freebsd", "x86_64") {
        Err(AppError::TtsUnavailable(m)) => assert_eq!(
            m,
            "Aucun binaire Piper pré-compilé n'est publié pour cette plateforme (freebsd/x86_64). Installez Piper manuellement et renseignez son chemin dans les paramètres avancés."
        ),
        _ => panic!("expected an error"),
    }
}

#[test]
fn download_addresses() {
    assert_eq!(
        release_url("piper_linux_x86_64.tar.gz"),
        "https://github.com/rhasspy/piper/releases/download/2023.11.14-2/piper_linux_x86_64.tar.gz"
    );
    let (model, config) = default_voice_files();
    assert_eq!(model, "fr_FR-siwis-medium.onnx");
    assert_eq!(config, "fr_FR-siwis-medium.onnx.json");
    assert_eq!(
        default_voice_url(&model),
        "https://huggingface.co/rhasspy/piper-voices/resolve/main/fr/fr_FR/siwis/medium/fr_FR-siwis-medium.onnx"
    );
}

#[test]
fn plausible_sizes() {
    assert!(check_archive_size(5 * 1024 * 1024, "u").is_ok());
    match check_archive_size(512, "https://x/y") {
        Err(AppError::TtsUnavailable(m)) => assert_eq!(
            m,
            "Le fichier téléchargé (512 octets) est trop petit pour être une archive Piper valide — probablement une page d'erreur renvoyée par le serveur plutôt que le binaire. URL tentée : https://x/y"
        ),
        _ => panic!(),
    }
    assert!(check_voice_model_size(1024 * 1024).is_ok());
    match check_voice_model_size(1048575) {
        Err(AppError::TtsUnavailable(m)) => assert_eq!(m, "Le modèle de voix téléchargé (1048575 octets) est anormalement petit."),
        _ => panic!(),
    }
}

#[test]
fn archive_formats() {
    assert_eq!(archive_kind("a.zip").ok(), Some(ArchiveKind::Zip));
    assert_eq!(archive_kind("a.tar.gz").ok(), Some(ArchiveKind::TarGz));
    match archive_kind("a.7z") {
        Err(AppError::TtsUnavailable(m)) => assert_eq!(m, "Format d'archive non pris en charge : a.7z"),
        _ => panic!(),
    }
}

#[test]
fn finds_binary_depth_first_two_levels_deep() {
    assert_eq!(binary_file_name(true), "piper.exe");
    assert_eq!(binary_file_name(false), "piper");
    let root = dir("/i", true, vec![]);
    assert_eq!(find_installed_binary(&root).as_deref(), Some("/i"));
    let root = dir(
        "/i",
        false,
        vec![
            dir("/i/a", false, vec![dir("/i/a/deep", true, vec![])]),
            dir("/i/b", true, vec![]),
        ],
    );
    assert_eq!(find_installed_binary(&root).as_deref(), Some("/i/a/deep"));
    let root = dir(
        "/i",
        false,
        vec![dir("/i/a", false, vec![dir("/i/a/x", false, vec![dir("/i/a/x/y", true, vec![])])])],
    );
    assert_eq!(find_installed_binary(&root), None);
}

#[test]
fn known_binary_priority() {
    let explicit = PathProbe { path: "/cfg/piper".into(), is_file: true };
    let bundled = PathProbe { path: "/res/piper".into(), is_file: true };
    assert_eq!(resolve_piper_binary(Some(explicit.clone()), Some(bundled.clone())).as_deref(), Some("/cfg/piper"));
    let missing = PathProbe { path: "/cfg/piper".into(), is_file: false };
    assert_eq!(resolve_piper_binary(Some(missing), Some(bundled)).as_deref(), Some("/res/piper"));
    assert_eq!(resolve_piper_binary(None, None), None);
}

#[test]
fn installation_errors() {
    let text = |e: AppError| match e {
        AppError::TtsUnavailable(m) => m,
        _ => panic!("expected TtsUnavailable"),
    };
    assert_eq!(
        text(binary_missing_after_extract_error()),
        "L'archive Piper a été téléchargée et extraite, mais aucun exécutable n'a été retrouvé à l'intérieur. La structure de l'archive a peut-être changé côté éditeur."
    );
    assert_eq!(
        text(binary_cannot_run_error("denied")),
        "Le binaire Piper téléchargé n'a pas pu être exécuté (denied). Il est peut-être incompatible avec votre système, ou bloqué par un antivirus."
    );
    assert_eq!(text(binary_failed_error("bad")), "Le binaire Piper téléchargé s'est exécuté mais a retourné une erreur : bad");
    assert_eq!(text(download_failed_error("piper", "404")), "Téléchargement échoué (piper) : 404");
    assert_eq!(text(download_interrupted_error("reset")), "Flux de téléchargement interrompu : reset");
    assert_eq!(text(voice_config_download_error("500")), "Téléchargement de la config de voix échoué : 500");
    assert_eq!(text(extraction_error(ArchiveKind::Zip, true, "x")), "Archive Piper invalide (.zip) : x");
    assert_eq!(text(extraction_error(ArchiveKind::Zip, false, "x")), "Échec d'extraction de l'archive .zip : x");
    assert_eq!(text(extraction_error(ArchiveKind::TarGz, false, "x")), "Échec d'extraction de l'archive .tar.gz : x");
}
