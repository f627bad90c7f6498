use twitch_voice_reader::tts::piper::{
    binary_not_found_error, exit_error, install_failed_error, not_installed_error, spawn_error, wait_error,
};
use twitch_voice_reader::error::AppError;
use twitch_voice_reader::tts::piper::{
    audio_from_pcm, decode_pcm_le, installed_voices, missing_model_error, sanitize_for_piper,
    voice_id_from_file_name, voice_model_file_name, PIPER_SAMPLE_RATE,
};

#[test]
fn line_breaks_become_spaces() {
    assert_eq!(sanitize_for_piper("un\ndeux\r\ntrois"), "un deux  trois");
    assert_eq!(sanitize_for_piper("déjà"), "déjà");
}

#[test]
fn pcm_is_little_endian_signed() {
    assert_eq!(decode_pcm_le(&[0x01, 0x00, 0xFF, 0xFF, 0x00, 0x80, 0xFF, 0x7F, 0x42]), vec![1, -1, i16::MIN, i16::MAX]);
    assert!(decode_pcm_le(&[7]).is_empty());
}

#[test]
fn pcm_round_trip() {
    let samples: Vec<i16> = vec![0, 1, -2, 300, -30000, i16::MAX, i16::MIN];
    let mut bytes = Vec::new();
    for s in &samples {
        bytes.extend_from_slice(&s.to_le_bytes());
    }
    assert_eq!(decode_pcm_le(&bytes), samples);
}

#[test]
fn empty_output_is_an_error() {
    match audio_from_pcm(&[1]) {
        Err(AppError::TtsUnavailable(m)) => assert_eq!(
            m,
            "Piper n'a produit aucun échantillon audio (sortie vide). Vérifiez la compatibilité entre la version du binaire Piper et le modèle de voix utilisé."
        ),
        _ => panic!("expected an error"),
    }
    match audio_from_pcm(&[0x10, 0x00]) {
        Ok(a) => {
            assert_eq!(a.samples, vec![16]);
            assert_eq!(a.sample_rate, PIPER_SAMPLE_RATE);
            assert_eq!(a.sample_rate, 22050);
        }
        Err(_) => panic!("expected audio"),
    }
}

#[test]
fn voice_files() {
    assert_eq!(voice_model_file_name("fr_FR-siwis-medium"), "fr_FR-siwis-medium.onnx");
    assert_eq!(voice_id_from_file_name("fr_FR-siwis-medium.onnx").as_deref(), Some("fr_FR-siwis-medium"));
    assert_eq!(voice_id_from_file_name("a.b.onnx").as_deref(), Some("a.b"));
    assert_eq!(voice_id_from_file_name("x.onnx.json"), None);
    assert_eq!(voice_id_from_file_name(".onnx"), None);
    assert_eq!(voice_id_from_file_name("onnx"), None);
    assert_eq!(voice_id_from_file_name(".."), None);
    assert_eq!(voice_id_from_file_name("..onnx").as_deref(), Some("."));
    let names = vec![
        "b.onnx".to_string(),
        "b.onnx.json".to_string(),
        "readme.txt".to_string(),
        "a.onnx".to_string(),
    ];
    assert_eq!(installed_voices(&names), vec!["b".to_string(), "a".to_string()]);
}

#[test]
fn missing_model_message() {
    match missing_model_error("v1", "/voices/v1.onnx") {
        AppError::TtsUnavailable(m) => assert_eq!(
            m,
            "Modèle de voix introuvable : v1 (attendu : /voices/v1.onnx). Ouvrez l'onglet « Voix et TTS » pour déclencher son téléchargement automatique."
        ),
        _ => panic!(),
    }
}

#[test]
fn process_errors() {
    let text = |e: AppError| match e {
        AppError::TtsUnavailable(m) => m,
        _ => panic!("expected TtsUnavailable"),
    };
    assert_eq!(text(exit_error(Some(-11), "boom")), "Piper a retourné une erreur (code Some(-11)) : boom");
    assert_eq!(text(exit_error(Some(2), "")), "Piper a retourné une erreur (code Some(2)) : ");
    assert_eq!(text(exit_error(None, "x")), "Piper a retourné une erreur (code None) : x");
    assert_eq!(text(not_installed_error()), "Piper n'est pas encore installé sur cette machine.");
    assert_eq!(text(install_failed_error()), "Le moteur Piper n'a pas pu être installé automatiquement.");
    assert_eq!(text(binary_not_found_error("e")), "Binaire Piper introuvable : e");
    assert_eq!(text(spawn_error("e")), "Impossible de démarrer Piper : e");
    assert_eq!(text(wait_error("e")), "Piper : échec en attendant la fin du process : e");
}
