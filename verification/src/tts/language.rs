//! Language detection for the automatic choice of a voice.
//!
//! `whatlang` is used for its speed on short texts such as chat messages.
//! A detection is only trusted when `whatlang` reports it reliable, either
//! among all the languages it knows or, when its most likely language is
//! one that has a voice (French, English, Spanish, German, Italian), among
//! those languages only; otherwise the default voice is kept. The second,
//! narrower detection matters for short messages: on "Hello everyone, how
//! are you doing today my friends?" `whatlang` answers English with a
//! confidence of about 0.75, below its reliability threshold of 0.9, while
//! among the five languages with a voice it is certain.

use vstd::prelude::*;
use crate::text::{chars_of, chars_eq};

verus! {

/// What `whatlang::detect` reports for a text: the ISO 639-3 code of the
/// detected language (`Lang::code`) and whether the detection is reliable
/// (`Info::is_reliable`), or `None` when no language is detected. Its
/// definition is `whatlang`'s statistical model.
pub uninterp spec fn whatlang_detection(text: Seq<char>) -> Option<(Seq<char>, bool)>;

/// What `whatlang::Detector::with_allowlist(allowed).detect` reports for a
/// text, `allowed` given by ISO 639-3 codes, in the same form as
/// [`whatlang_detection`].
pub uninterp spec fn whatlang_detection_among(text: Seq<char>, allowed: Seq<Seq<char>>) -> Option<(Seq<char>, bool)>;

/// Calls `whatlang::detect` and reads the detected language's code and the
/// reliability flag of the result. Claimed: the result is
/// `whatlang_detection` of the text.
#[verifier::external_body]
fn detect_with_whatlang(text: &str) -> (r: Option<(String, bool)>)
    ensures
        match r {
            Some((code, reliable)) => whatlang_detection(text@) == Some((code@, reliable)),
            None => whatlang_detection(text@) is None,
        },
{
    match whatlang::detect(text) {
        Some(info) => Some((info.lang().code().to_string(), info.is_reliable())),
        None => None,
    }
}

/// Converts the codes with `whatlang::Lang::from_code`, builds a
/// `whatlang::Detector::with_allowlist` of those languages and calls its
/// `detect`, reading the result as [`detect_with_whatlang`] does (no result
/// when a code is unknown to `whatlang`). Claimed: the result is
/// `whatlang_detection_among` of the text and the codes.
#[verifier::external_body]
fn detect_among(text: &str, allowed: &Vec<String>) -> (r: Option<(String, bool)>)
    ensures
        match r {
            Some((code, reliable)) => whatlang_detection_among(text@, allowed@.map_values(|c: String| c@))
                == Some((code@, reliable)),
            None => whatlang_detection_among(text@, allowed@.map_values(|c: String| c@)) is None,
        },
{
    let langs: Option<Vec<whatlang::Lang>> = allowed.iter().map(|c| whatlang::Lang::from_code(c.as_str())).collect();
    match langs {
        Some(list) => match whatlang::Detector::with_allowlist(list).detect(text) {
            Some(info) => Some((info.lang().code().to_string(), info.is_reliable())),
            None => None,
        },
        None => None,
    }
}

/// ISO 639-1 code, in the language-to-voice table, of a language given by
/// its ISO 639-3 code; `None` for a language without a voice.
pub open spec fn voice_language(code: Seq<char>) -> Option<Seq<char>> {
    if code == "fra"@ {
        Some("fr"@)
    } else if code == "eng"@ {
        Some("en"@)
    } else if code == "spa"@ {
        Some("es"@)
    } else if code == "deu"@ {
        Some("de"@)
    } else if code == "ita"@ {
        Some("it"@)
    } else {
        None
    }
}

/// The ISO 639-3 codes of the languages that have a voice.
pub open spec fn voice_languages() -> Seq<Seq<char>> {
    seq!["fra"@, "eng"@, "spa"@, "deu"@, "ita"@]
}

/// Language (ISO 639-1) to read a text in, from the detection among all
/// languages (`full`) and, when needed, the detection among the languages
/// that have a voice (`among_voices`): the most likely language must have a
/// voice, and be reliable in either detection.
pub open spec fn language_code_for(
    full: Option<(Seq<char>, bool)>,
    among_voices: Option<(Seq<char>, bool)>,
) -> Option<Seq<char>> {
    match full {
        Some((code, reliable)) => if voice_language(code) is None {
            None
        } else if reliable {
            voice_language(code)
        } else if among_voices == Some((code, true)) {
            voice_language(code)
        } else {
            None
        },
        None => None,
    }
}

/// Language (ISO 639-1) of a text, among those that have a voice.
pub open spec fn detected_language(text: Seq<char>) -> Option<Seq<char>> {
    language_code_for(whatlang_detection(text), whatlang_detection_among(text, voice_languages()))
}

fn code_is(code: &[char], lit: &str) -> (r: bool)
    ensures
        r == (code@ == lit@),
{
    let l = chars_of(lit);
    chars_eq(code, l.as_slice())
}

fn voice_language_of(code: &str) -> (r: Option<&'static str>)
    ensures
        match r {
            Some(c) => voice_language(code@) == Some(c@),
            None => voice_language(code@) is None,
        },
{
    let c = chars_of(code);
    if code_is(c.as_slice(), "fra") {
        Some("fr")
    } else if code_is(c.as_slice(), "eng") {
        Some("en")
    } else if code_is(c.as_slice(), "spa") {
        Some("es")
    } else if code_is(c.as_slice(), "deu") {
        Some("de")
    } else if code_is(c.as_slice(), "ita") {
        Some("it")
    } else {
        None
    }
}

pub open spec fn detection_view(d: Option<(String, bool)>) -> Option<(Seq<char>, bool)> {
    match d {
        Some((code, reliable)) => Some((code@, reliable)),
        None => None,
    }
}

/// Language code (ISO 639-1) for the results of the two `whatlang`
/// detections (among all languages, among the languages with a voice).
pub fn language_code_from_detection(
    full: Option<(String, bool)>,
    among_voices: Option<(String, bool)>,
) -> (r: Option<&'static str>)
    ensures
        match r {
            Some(c) => language_code_for(detection_view(full), detection_view(among_voices)) == Some(c@),
            None => language_code_for(detection_view(full), detection_view(among_voices)) is None,
        },
{
    match full {
        Some((code, reliable)) => {
            let lang = voice_language_of(code.as_str());
            if lang.is_none() || reliable {
                return lang;
            }
            match among_voices {
                Some((c2, r2)) => {
                    let a = chars_of(code.as_str());
                    let b = chars_of(c2.as_str());
                    if r2 && chars_eq(a.as_slice(), b.as_slice()) {
                        lang
                    } else {
                        None
                    }
                },
                None => None,
            }
        },
        None => None,
    }
}

/// Language code (ISO 639-1) of a text, among those the voice table knows,
/// when `whatlang` detects it reliably. The detection among the languages
/// with a voice is only run when the general one is not conclusive.
pub fn detect_language_code(text: &str) -> (r: Option<&'static str>)
    ensures
        match r {
            Some(c) => detected_language(text@) == Some(c@),
            None => detected_language(text@) is None,
        },
{
    let full = detect_with_whatlang(text);
    let needs_second = match &full {
        Some((code, reliable)) => !*reliable && voice_language_of(code.as_str()).is_some(),
        None => false,
    };
    if !needs_second {
        return language_code_from_detection(full, None);
    }
    let mut allowed: Vec<String> = Vec::new();
    allowed.push("fra".to_owned());
    allowed.push("eng".to_owned());
    allowed.push("spa".to_owned());
    allowed.push("deu".to_owned());
    allowed.push("ita".to_owned());
    assert(allowed@.map_values(|c: String| c@) =~= voice_languages());
    let among = detect_among(text, &allowed);
    language_code_from_detection(full, among)
}

} // verus!
