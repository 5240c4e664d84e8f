use vstd::prelude::*;
use vstd::slice::slice_to_vec;
use vstd::utf8::{encode_utf8, is_ascii_chars, is_ascii_chars_encode_utf8};

use crate::config::RealtimeConfig;

verus! {

/// The UTF-8 bytes of the JSON string literal for a text, quotes and escapes
/// included, as serde_json writes it.
pub uninterp spec fn json_string_bytes(s: Seq<char>) -> Seq<u8>;

/// Relies on serde_json::to_vec on a `str`: it writes the JSON string literal
/// of the text. Writing a `str` into a `Vec` cannot fail.
#[verifier::external_body]
fn json_string(s: &str) -> (r: Vec<u8>)
    ensures
        r@ == json_string_bytes(s@),
{
    serde_json::to_vec(s).unwrap_or_default()
}

/// ASCII decimal digits of a number, most significant first.
pub open spec fn decimal_digits(n: nat) -> Seq<u8>
    decreases n,
{
    if n < 10 {
        seq![(48 + n) as u8]
    } else {
        decimal_digits(n / 10).push((48 + n % 10) as u8)
    }
}

fn push_decimal(buf: &mut Vec<u8>, n: u32)
    ensures
        final(buf)@ == old(buf)@ + decimal_digits(n as nat),
    decreases n,
{
    if n >= 10 {
        push_decimal(buf, n / 10);
    }
    buf.push(48 + (n % 10) as u8);
}

fn push_str(buf: &mut Vec<u8>, s: &str)
    ensures
        final(buf)@ == old(buf)@ + encode_utf8(s@),
{
    let mut bytes = slice_to_vec(s.as_bytes());
    buf.append(&mut bytes);
}

/// How the session is fed: `"text"` for a text query, `"audio_file"` for
/// recorded audio.
pub open spec fn input_mode_text(audio: bool) -> Seq<char> {
    if audio {
        "audio_file"@
    } else {
        "text"@
    }
}

/// The JSON configuration sent with StartSession, keys in sorted order:
/// `{"dialog":{"extra":{"input_mod":M,"model":S}},"tts":{"audio_config":
/// {"channel":N,"format":S,"sample_rate":N},"speaker":S}}`.
pub open spec fn start_session_json(cfg: RealtimeConfig, audio: bool) -> Seq<u8> {
    encode_utf8("{\"dialog\":{\"extra\":{\"input_mod\":"@) + json_string_bytes(
        input_mode_text(audio),
    ) + encode_utf8(",\"model\":"@) + json_string_bytes(cfg.model@) + encode_utf8(
        "}},\"tts\":{\"audio_config\":{\"channel\":"@,
    ) + decimal_digits(cfg.audio_channel as nat) + encode_utf8(",\"format\":"@)
        + json_string_bytes(cfg.audio_format@) + encode_utf8(",\"sample_rate\":"@)
        + decimal_digits(cfg.audio_sample_rate as nat) + encode_utf8("},\"speaker\":"@)
        + json_string_bytes(cfg.default_speaker@) + encode_utf8("}}"@)
}

/// The JSON body of a text query: `{"content":TEXT}`.
pub open spec fn text_query_json(text: Seq<char>) -> Seq<u8> {
    encode_utf8("{\"content\":"@) + json_string_bytes(text) + encode_utf8("}"@)
}

/// A text query body is never empty: it ends with a closing brace.
pub proof fn lemma_text_query_nonempty(text: Seq<char>)
    ensures
        text_query_json(text).len() > 0,
{
    reveal_strlit("}");
    assert(is_ascii_chars("}"@));
    is_ascii_chars_encode_utf8("}"@);
}

/// The empty JSON object, body of the control frames that carry no settings.
pub open spec fn empty_json() -> Seq<u8> {
    encode_utf8("{}"@)
}

pub fn start_session_payload(cfg: &RealtimeConfig, audio: bool) -> (r: Vec<u8>)
    ensures
        r@ == start_session_json(*cfg, audio),
{
    let mode = if audio {
        "audio_file"
    } else {
        "text"
    };
    let mut buf: Vec<u8> = Vec::new();
    push_str(&mut buf, "{\"dialog\":{\"extra\":{\"input_mod\":");
    let mut part = json_string(mode);
    buf.append(&mut part);
    push_str(&mut buf, ",\"model\":");
    let mut part = json_string(cfg.model.as_str());
    buf.append(&mut part);
    push_str(&mut buf, "}},\"tts\":{\"audio_config\":{\"channel\":");
    push_decimal(&mut buf, cfg.audio_channel as u32);
    push_str(&mut buf, ",\"format\":");
    let mut part = json_string(cfg.audio_format.as_str());
    buf.append(&mut part);
    push_str(&mut buf, ",\"sample_rate\":");
    push_decimal(&mut buf, cfg.audio_sample_rate);
    push_str(&mut buf, "},\"speaker\":");
    let mut part = json_string(cfg.default_speaker.as_str());
    buf.append(&mut part);
    push_str(&mut buf, "}}");
    assert(buf@ =~= start_session_json(*cfg, audio));
    buf
}

pub fn text_query_payload(text: &str) -> (r: Vec<u8>)
    ensures
        r@ == text_query_json(text@),
{
    let mut buf: Vec<u8> = Vec::new();
    push_str(&mut buf, "{\"content\":");
    let mut part = json_string(text);
    buf.append(&mut part);
    push_str(&mut buf, "}");
    assert(buf@ =~= text_query_json(text@));
    buf
}

pub fn empty_json_payload() -> (r: Vec<u8>)
    ensures
        r@ == empty_json(),
        r@.len() == 2,
{
    let mut buf: Vec<u8> = Vec::new();
    push_str(&mut buf, "{}");
    proof {
        reveal_strlit("{}");
        assert(is_ascii_chars("{}"@));
        is_ascii_chars_encode_utf8("{}"@);
    }
    buf
}

} // verus!
