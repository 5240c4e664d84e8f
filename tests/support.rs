use chat::config::{Config, RealtimeConfig};
use chat::models::{ChatMessage, ChatResponse, ErrorResponse};
use chat::payload::{start_session_payload, text_query_payload};
use chat::role::get_role_system_prompt;
use chat::services::{chat_messages, is_audio_field, speech_voice};
use chat::text::same_text;

#[test]
fn defaults_fill_every_setting() {
    let c = Config::with_defaults("id".to_string(), "secret".to_string());
    assert_eq!(c.host, "127.0.0.1");
    assert_eq!(c.port, 3000);
    assert_eq!(c.geekai_app_id, "id");
    assert_eq!(c.geekai_access_key, "secret");
    assert_eq!(c.geekai_resource_id, "volc.speech.dialog");
    assert_eq!(c.geekai_default_speaker, "zh_female_vv_jupiter_bigtts");
    assert_eq!(c.geekai_model, "O");
    assert_eq!(c.geekai_channel, 1);
    assert_eq!(c.geekai_format, "pcm_s16le");
    assert_eq!(c.geekai_sample_rate, 24000);
    let r = RealtimeConfig::from(&c);
    assert_eq!(r.app_id, "id");
    assert_eq!(r.access_key, "secret");
    assert_eq!(r.resource_id, "volc.speech.dialog");
    assert_eq!(r.app_key, c.geekai_app_key);
    assert_eq!(r.audio_sample_rate, 24000);
}

#[test]
fn start_session_payload_is_sorted_json() {
    let cfg = RealtimeConfig::from(&Config::with_defaults("a".to_string(), "b".to_string()));
    let text = String::from_utf8(start_session_payload(&cfg, false)).unwrap();
    assert_eq!(
        text,
        "{\"dialog\":{\"extra\":{\"input_mod\":\"text\",\"model\":\"O\"}},\"tts\":{\"audio_config\":{\"channel\":1,\"format\":\"pcm_s16le\",\"sample_rate\":24000},\"speaker\":\"zh_female_vv_jupiter_bigtts\"}}"
    );
    let audio = String::from_utf8(start_session_payload(&cfg, true)).unwrap();
    assert!(audio.contains("\"input_mod\":\"audio_file\""));
    let value: serde_json::Value = serde_json::from_str(&audio).unwrap();
    assert_eq!(value["tts"]["audio_config"]["sample_rate"], 24000);
}

#[test]
fn numbers_are_written_in_decimal() {
    let mut cfg = RealtimeConfig::from(&Config::with_defaults("a".to_string(), "b".to_string()));
    cfg.audio_channel = 0;
    cfg.audio_sample_rate = 4294967295;
    let text = String::from_utf8(start_session_payload(&cfg, false)).unwrap();
    assert!(text.contains("\"channel\":0,"));
    assert!(text.contains("\"sample_rate\":4294967295}"));
}

#[test]
fn text_query_escapes_the_text() {
    let body = text_query_payload("say \"hi\"\n\\ 你好");
    let text = String::from_utf8(body).unwrap();
    assert_eq!(text, "{\"content\":\"say \\\"hi\\\"\\n\\\\ 你好\"}");
    let value: serde_json::Value = serde_json::from_str(&text).unwrap();
    assert_eq!(value["content"], "say \"hi\"\n\\ 你好");
}

#[test]
fn role_prompts() {
    assert!(get_role_system_prompt("general").starts_with("You are Jordan"));
    assert!(get_role_system_prompt("teacher").contains("language teacher"));
    assert!(get_role_system_prompt("business").contains("business consultant"));
    assert!(get_role_system_prompt("friend").contains("chat partner"));
    assert!(get_role_system_prompt("travel").contains("travel guide"));
    assert_eq!(get_role_system_prompt("pirate"), "You are a helpful AI assistant.");
    assert_eq!(get_role_system_prompt(""), "You are a helpful AI assistant.");
    assert_eq!(
        get_role_system_prompt("general"),
        "You are Jordan, a friendly and helpful AI assistant. You can communicate in multiple languages fluently. Be warm, patient, and adapt to the user's needs."
    );
}

fn turn(role: &str, content: &str) -> ChatMessage {
    ChatMessage { role: role.to_string(), content: content.to_string() }
}

#[test]
fn chat_messages_keep_the_latest_ten_turns() {
    let history: Vec<ChatMessage> = (0..13).map(|i| turn("user", &format!("m{}", i))).collect();
    let messages = chat_messages("now", &history, "sys");
    assert_eq!(messages.len(), 12);
    assert_eq!(messages[0].role, "system");
    assert_eq!(messages[0].content, "sys");
    assert_eq!(messages[1].content, "m3");
    assert_eq!(messages[10].content, "m12");
    assert_eq!(messages[11].role, "user");
    assert_eq!(messages[11].content, "now");
    let short = chat_messages("q", &history[..2].to_vec(), "s");
    assert_eq!(short.len(), 4);
    assert_eq!(short[1].content, "m0");
    assert_eq!(chat_messages("q", &Vec::new(), "s").len(), 2);
}

#[test]
fn voices_and_fields() {
    assert_eq!(speech_voice("zh"), "nova");
    assert_eq!(speech_voice("en"), "alloy");
    assert_eq!(speech_voice("zh-CN"), "alloy");
    assert!(is_audio_field("audio"));
    assert!(is_audio_field("file"));
    assert!(!is_audio_field("files"));
    assert!(!is_audio_field(""));
    assert!(same_text("é", "é"));
    assert!(!same_text("é", "e"));
}

#[test]
fn responses() {
    let r = ChatResponse::with_audio("hello".to_string(), "abc.ogg");
    assert_eq!(r.message.as_deref(), Some("hello"));
    assert_eq!(r.audio_url.as_deref(), Some("/audio/abc.ogg"));
    let e = ErrorResponse::internal("boom".to_string());
    assert_eq!(e.error, "InternalError");
    assert_eq!(e.message, "boom");
}
