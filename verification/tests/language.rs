use twitch_voice_reader::tts::language::{detect_language_code, language_code_from_detection};

#[test]
fn detects_french() {
    assert_eq!(
        detect_language_code("Bonjour tout le monde, comment allez-vous aujourd'hui ?"),
        Some("fr")
    );
}

#[test]
fn detects_english() {
    assert_eq!(
        detect_language_code("Hello everyone, how are you doing today my friends?"),
        Some("en")
    );
}

#[test]
fn language_without_voice_is_not_guessed() {
    assert_eq!(detect_language_code("Olá a todos, como vocês estão hoje meus amigos?"), None);
}

#[test]
fn maps_reliable_detections_only() {
    let d = |c: &str, r: bool| Some((c.to_string(), r));
    assert_eq!(language_code_from_detection(d("deu", true), None), Some("de"));
    assert_eq!(language_code_from_detection(d("ita", true), None), Some("it"));
    assert_eq!(language_code_from_detection(d("spa", true), None), Some("es"));
    assert_eq!(language_code_from_detection(d("fra", false), None), None);
    assert_eq!(language_code_from_detection(d("fra", false), d("fra", false)), None);
    assert_eq!(language_code_from_detection(d("eng", false), d("eng", true)), Some("en"));
    assert_eq!(language_code_from_detection(d("eng", false), d("deu", true)), None);
    assert_eq!(language_code_from_detection(d("jpn", true), None), None);
    assert_eq!(language_code_from_detection(d("por", false), d("spa", true)), None);
    assert_eq!(language_code_from_detection(None, d("fra", true)), None);
}

#[test]
fn plain_detection_is_unsure_of_a_short_english_sentence() {
    let info = whatlang::detect("Hello everyone, how are you doing today my friends?").expect("detected");
    assert_eq!(info.lang(), whatlang::Lang::Eng);
    assert!(!info.is_reliable());
}
