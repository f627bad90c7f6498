//! What the library decides around the Piper speech engine: the text it is
//! given, the decoding of the raw audio it prints, and the voice models
//! found on disk.
//!
//! Piper runs as a separate process per message and writes raw 16-bit
//! little-endian mono PCM on its standard output, so no temporary file is
//! needed.

use vstd::prelude::*;
use crate::error::AppError;
use crate::text;
use crate::text::{chars_of, chars_eq, push_str_chars, string_from_chars};

verus! {

/// Sample rate of Piper voices (mono, 16 bits).
pub const PIPER_SAMPLE_RATE: u32 = 22_050;

/// Raw result of a synthesis: signed 16-bit PCM samples, mono.
#[derive(Debug, Clone)]
pub struct SynthesizedAudio {
    pub samples: Vec<i16>,
    pub sample_rate: u32,
}

// ---------------------------------------------------------------------------
// Text given to Piper
// ---------------------------------------------------------------------------

/// Piper reads its input line by line: each line break is replaced by a
/// space so that a message stays one utterance.
pub open spec fn sanitize_spec(t: Seq<char>) -> Seq<char> {
    t.map_values(|c: char| if c == '\n' || c == '\r' { ' ' } else { c })
}

/// The text written to Piper's input for `text`.
pub fn sanitize_for_piper(text: &str) -> (s: String)
    ensures
        s@ == sanitize_spec(text@),
{
    let cs = chars_of(text);
    let mut out: Vec<char> = Vec::new();
    let mut i: usize = 0;
    while i < cs.len()
        invariant
            i <= cs@.len(),
            cs@ == text@,
            out@ == sanitize_spec(text@).subrange(0, i as int),
        decreases cs@.len() - i,
    {
        let c = cs[i];
        let d = if c == '\n' || c == '\r' {
            ' '
        } else {
            c
        };
        out.push(d);
        assert(out@ =~= sanitize_spec(text@).subrange(0, i + 1));
        i = i + 1;
    }
    assert(out@ =~= sanitize_spec(text@));
    string_from_chars(out.as_slice())
}

/// The text given to Piper is one line of the same length: no line break
/// is left, and every other character is kept.
pub proof fn law_sanitized_text_is_one_line(t: Seq<char>)
    ensures
        sanitize_spec(t).len() == t.len(),
        forall|i: int| 0 <= i < t.len() ==> #[trigger] sanitize_spec(t)[i] != '\n' && sanitize_spec(t)[i] != '\r',
        forall|i: int|
            0 <= i < t.len() && t[i] != '\n' && t[i] != '\r' ==> #[trigger] sanitize_spec(t)[i] == t[i],
{
}

// ---------------------------------------------------------------------------
// Raw PCM
// ---------------------------------------------------------------------------

/// The signed 16-bit sample whose little-endian bytes are `lo`, `hi`.
pub open spec fn sample_of(lo: u8, hi: u8) -> i16 {
    let u = lo as int + 256 * (hi as int);
    if u >= 32768 {
        (u - 65536) as i16
    } else {
        u as i16
    }
}

/// The samples of a raw little-endian stream, two bytes each; a trailing
/// odd byte is ignored.
pub open spec fn decode_spec(raw: Seq<u8>) -> Seq<i16> {
    Seq::new(raw.len() / 2, |i: int| sample_of(raw[2 * i], raw[2 * i + 1]))
}

/// Low byte of a sample in little-endian order.
pub open spec fn low_byte(s: i16) -> u8 {
    ((if s < 0 { s + 65536 } else { s as int }) % 256) as u8
}

/// High byte of a sample in little-endian order.
pub open spec fn high_byte(s: i16) -> u8 {
    ((if s < 0 { s + 65536 } else { s as int }) / 256) as u8
}

/// The little-endian bytes of a list of samples.
pub open spec fn encode_spec(samples: Seq<i16>) -> Seq<u8> {
    Seq::new(
        2 * samples.len(),
        |j: int| if j % 2 == 0 { low_byte(samples[j / 2]) } else { high_byte(samples[j / 2]) },
    )
}

fn sample_from_bytes(lo: u8, hi: u8) -> (s: i16)
    ensures
        s == sample_of(lo, hi),
{
    let u: i32 = (lo as i32) + 256 * (hi as i32);
    if u >= 32768 {
        (u - 65536) as i16
    } else {
        u as i16
    }
}

/// Decodes Piper's raw output into samples.
pub fn decode_pcm_le(raw: &[u8]) -> (v: Vec<i16>)
    ensures
        v@ == decode_spec(raw@),
{
    let len = raw.len();
    let n = len / 2;
    let mut v: Vec<i16> = Vec::new();
    let mut i: usize = 0;
    while i < n
        invariant
            len == raw@.len(),
            n == raw@.len() / 2,
            i <= n,
            v@ == decode_spec(raw@).subrange(0, i as int),
        decreases n - i,
    {
        assert(2 * i + 1 < raw@.len());
        let s = sample_from_bytes(raw[2 * i], raw[2 * i + 1]);
        v.push(s);
        assert(v@ =~= decode_spec(raw@).subrange(0, i + 1));
        i = i + 1;
    }
    assert(v@ =~= decode_spec(raw@));
    v
}

/// Decoding the little-endian bytes of samples gives the samples back.
pub proof fn law_decode_inverts_encode(samples: Seq<i16>)
    ensures
        decode_spec(encode_spec(samples)) == samples,
{
    let e = encode_spec(samples);
    assert(e.len() / 2 == samples.len());
    assert forall|i: int| 0 <= i < samples.len() implies #[trigger] decode_spec(e)[i] == samples[i] by {
        assert((2 * i) % 2 == 0 && (2 * i) / 2 == i);
        assert((2 * i + 1) % 2 == 1 && (2 * i + 1) / 2 == i);
        let s = samples[i];
        let u = if s < 0 { s + 65536 } else { s as int };
        assert(0 <= u < 65536);
        assert(e[2 * i] == low_byte(s));
        assert(e[2 * i + 1] == high_byte(s));
        assert(low_byte(s) as int + 256 * (high_byte(s) as int) == u);
    }
    assert(decode_spec(e) =~= samples);
}

/// Message of the error reported when Piper succeeded without output.
pub open spec fn empty_output_message() -> Seq<char> {
    "Piper n'a produit aucun échantillon audio (sortie vide). Vérifiez la compatibilité entre la version du binaire Piper et le modèle de voix utilisé."@
}

/// The audio of a successful Piper run, from its raw output. An output
/// without a single sample (incompatible model, text empty once cleaned)
/// is an error rather than a silent success.
pub fn audio_from_pcm(raw: &[u8]) -> (r: Result<SynthesizedAudio, AppError>)
    ensures
        decode_spec(raw@).len() == 0 ==> (r matches Err(AppError::TtsUnavailable(m)) && m@
            == empty_output_message()),
        decode_spec(raw@).len() > 0 ==> (r matches Ok(a) && a.samples@ == decode_spec(raw@)
            && a.sample_rate == PIPER_SAMPLE_RATE),
{
    let samples = decode_pcm_le(raw);
    if samples.len() == 0 {
        return Err(
            AppError::TtsUnavailable(
                "Piper n'a produit aucun échantillon audio (sortie vide). Vérifiez la compatibilité entre la version du binaire Piper et le modèle de voix utilisé.".to_owned(),
            ),
        );
    }
    Ok(SynthesizedAudio { samples, sample_rate: PIPER_SAMPLE_RATE })
}

// ---------------------------------------------------------------------------
// Voice models
// ---------------------------------------------------------------------------

/// File name of the model of voice `voice_id`.
pub fn voice_model_file_name(voice_id: &str) -> (s: String)
    ensures
        s@ == voice_id@ + ".onnx"@,
{
    let mut s = String::new();
    push_str_chars(&mut s, voice_id);
    push_str_chars(&mut s, ".onnx");
    s
}

/// Position of the last `'.'` of a file name.
pub open spec fn last_dot(name: Seq<char>) -> Option<int> {
    if exists|i: int| 0 <= i < name.len() && name[i] == '.' && forall|j: int| i < j < name.len() ==> name[j] != '.' {
        Some(choose|i: int| 0 <= i < name.len() && name[i] == '.' && forall|j: int| i < j < name.len() ==> name[j] != '.')
    } else {
        None
    }
}

/// Voice identifier of a file of the voices folder, as `Path::extension`
/// and `Path::file_stem` see it: the part before the last dot when the
/// extension is `onnx`. A name whose only dot is its first character (a
/// hidden file) and the name `..` have no extension.
pub open spec fn voice_id_of_file(name: Seq<char>) -> Option<Seq<char>> {
    if name == ".."@ {
        None
    } else {
        match last_dot(name) {
            Some(i) => if i > 0 && name.subrange(i + 1, name.len() as int) == "onnx"@ {
                Some(name.subrange(0, i))
            } else {
                None
            },
            None => None,
        }
    }
}

proof fn lemma_last_dot(name: Seq<char>, i: int)
    requires
        0 <= i < name.len(),
        name[i] == '.',
        forall|j: int| i < j < name.len() ==> name[j] != '.',
    ensures
        last_dot(name) == Some(i),
{
    let k = choose|k: int| 0 <= k < name.len() && name[k] == '.' && forall|j: int| k < j < name.len() ==> name[j] != '.';
    assert(0 <= k < name.len() && name[k] == '.' && forall|j: int| k < j < name.len() ==> name[j] != '.');
    if k < i {
        assert(name[i] != '.');
    }
    if i < k {
        assert(name[k] != '.');
    }
}

/// Voice identifier of a file name of the voices folder, when it is a
/// model (`.onnx`).
pub fn voice_id_from_file_name(name: &str) -> (r: Option<String>)
    ensures
        match r {
            Some(id) => voice_id_of_file(name@) == Some(id@),
            None => voice_id_of_file(name@) is None,
        },
{
    let cs = chars_of(name);
    let dots = chars_of("..");
    proof {
        reveal_strlit("..");
        reveal_strlit("onnx");
    }
    if chars_eq(cs.as_slice(), dots.as_slice()) {
        return None;
    }
    let mut i = cs.len();
    while i > 0
        invariant
            i <= cs@.len(),
            cs@ == name@,
            name@ != ".."@,
            forall|j: int| i <= j < cs@.len() ==> cs@[j] != '.',
        decreases i,
    {
        if cs[i - 1] == '.' {
            proof {
                lemma_last_dot(name@, i - 1);
            }
            if i - 1 == 0 {
                return None;
            }
            let n = cs.len();
            let ext = &cs[i..n];
            let onnx = chars_of("onnx");
            if chars_eq(ext, onnx.as_slice()) {
                let id = string_from_chars(&cs[0..i - 1]);
                assert(name@ != ".."@);
                assert(last_dot(name@) == Some(i - 1));
                assert(ext@ == name@.subrange(i as int, name@.len() as int));
                assert(id@ == name@.subrange(0, i - 1));
                return Some(id);
            }
            return None;
        }
        i = i - 1;
    }
    proof {
        if last_dot(name@) is Some {
            let k = last_dot(name@)->0;
            assert(0 <= k < name@.len() && name@[k] == '.');
        }
    }
    None
}

/// Voice identifiers of a list of file names, in order.
pub open spec fn installed_voices_spec(names: Seq<Seq<char>>) -> Seq<Seq<char>>
    decreases names.len(),
{
    if names.len() == 0 {
        seq![]
    } else {
        let rest = installed_voices_spec(names.drop_last());
        match voice_id_of_file(names.last()) {
            Some(id) => rest.push(id),
            None => rest,
        }
    }
}

/// The voices installed in a folder whose file names are `file_names`:
/// one per `.onnx` model.
pub fn installed_voices(file_names: &Vec<String>) -> (v: Vec<String>)
    ensures
        text::strings_view(v@) == installed_voices_spec(text::strings_view(file_names@)),
{
    let ghost nv = text::strings_view(file_names@);
    let mut v: Vec<String> = Vec::new();
    let mut i: usize = 0;
    while i < file_names.len()
        invariant
            i <= file_names@.len(),
            nv == text::strings_view(file_names@),
            text::strings_view(v@) == installed_voices_spec(nv.subrange(0, i as int)),
        decreases file_names@.len() - i,
    {
        proof {
            assert(nv.subrange(0, i + 1).drop_last() =~= nv.subrange(0, i as int));
            assert(nv.subrange(0, i + 1).last() == nv[i as int]);
        }
        match voice_id_from_file_name(file_names[i].as_str()) {
            Some(id) => {
                let ghost before = v@;
                v.push(id);
                assert(text::strings_view(v@) =~= text::strings_view(before).push(
                    voice_id_of_file(nv[i as int])->0,
                ));
            },
            None => {},
        }
        i = i + 1;
    }
    assert(nv.subrange(0, nv.len() as int) =~= nv);
    v
}

/// Error reported when the model of `voice_id` is missing at `model_path`.
pub fn missing_model_error(voice_id: &str, model_path: &str) -> (e: AppError)
    ensures
        e matches AppError::TtsUnavailable(m) && m@ == "Modèle de voix introuvable : "@ + voice_id@
            + " (attendu : "@ + model_path@
            + "). Ouvrez l'onglet « Voix et TTS » pour déclencher son téléchargement automatique."@,
{
    let mut m = String::new();
    push_str_chars(&mut m, "Modèle de voix introuvable : ");
    push_str_chars(&mut m, voice_id);
    push_str_chars(&mut m, " (attendu : ");
    push_str_chars(&mut m, model_path);
    push_str_chars(
        &mut m,
        "). Ouvrez l'onglet « Voix et TTS » pour déclencher son téléchargement automatique.",
    );
    AppError::TtsUnavailable(m)
}

/// Error reported before any synthesis when no Piper binary is known yet.
pub fn not_installed_error() -> (e: AppError)
    ensures
        e matches AppError::TtsUnavailable(m) && m@ == "Piper n'est pas encore installé sur cette machine."@,
{
    AppError::TtsUnavailable("Piper n'est pas encore installé sur cette machine.".to_owned())
}

/// Error reported when the automatic installation left no binary.
pub fn install_failed_error() -> (e: AppError)
    ensures
        e matches AppError::TtsUnavailable(m) && m@ == "Le moteur Piper n'a pas pu être installé automatiquement."@,
{
    AppError::TtsUnavailable("Le moteur Piper n'a pas pu être installé automatiquement.".to_owned())
}

fn tts_error(prefix: &str, detail: &str) -> (e: AppError)
    ensures
        e matches AppError::TtsUnavailable(m) && m@ == prefix@ + detail@,
{
    let mut m = String::new();
    push_str_chars(&mut m, prefix);
    push_str_chars(&mut m, detail);
    AppError::TtsUnavailable(m)
}

/// Error reported when the Piper binary cannot be run for its version.
pub fn binary_not_found_error(detail: &str) -> (e: AppError)
    ensures
        e matches AppError::TtsUnavailable(m) && m@ == "Binaire Piper introuvable : "@ + detail@,
{
    tts_error("Binaire Piper introuvable : ", detail)
}

/// Error reported when the Piper process cannot be started.
pub fn spawn_error(detail: &str) -> (e: AppError)
    ensures
        e matches AppError::TtsUnavailable(m) && m@ == "Impossible de démarrer Piper : "@ + detail@,
{
    tts_error("Impossible de démarrer Piper : ", detail)
}

/// Error reported when waiting for the Piper process fails.
pub fn wait_error(detail: &str) -> (e: AppError)
    ensures
        e matches AppError::TtsUnavailable(m) && m@ == "Piper : échec en attendant la fin du process : "@
            + detail@,
{
    tts_error("Piper : échec en attendant la fin du process : ", detail)
}

/// `{:?}` form of an optional exit code.
pub open spec fn exit_code_text(code: Option<i32>) -> Seq<char> {
    match code {
        Some(c) => "Some("@ + text::signed_decimal(c as int) + ")"@,
        None => "None"@,
    }
}

/// Error reported when Piper exits with a failure status, with its exit
/// code (none when killed by a signal) and what it printed on its error
/// output.
pub fn exit_error(code: Option<i32>, stderr: &str) -> (e: AppError)
    ensures
        e matches AppError::TtsUnavailable(m) && m@ == "Piper a retourné une erreur (code "@
            + exit_code_text(code) + ") : "@ + stderr@,
{
    let mut m = String::new();
    push_str_chars(&mut m, "Piper a retourné une erreur (code ");
    let ghost start = m@;
    match code {
        Some(c) => {
            push_str_chars(&mut m, "Some(");
            text::push_signed_decimal(&mut m, c);
            push_str_chars(&mut m, ")");
        },
        None => {
            push_str_chars(&mut m, "None");
        },
    }
    assert(m@ =~= start + exit_code_text(code));
    push_str_chars(&mut m, ") : ");
    push_str_chars(&mut m, stderr);
    AppError::TtsUnavailable(m)
}

} // verus!
