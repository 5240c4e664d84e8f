use vstd::prelude::*;

verus! {

/// Settings of the whole service.
#[derive(Debug, Clone)]
pub struct Config {
    pub host: String,
    pub port: u16,
    pub geekai_app_id: String,
    pub geekai_access_key: String,
    pub geekai_resource_id: String,
    pub geekai_app_key: String,
    pub geekai_default_speaker: String,
    pub geekai_model: String,
    pub geekai_channel: u8,
    pub geekai_format: String,
    pub geekai_sample_rate: u32,
}

impl Config {
    /// The settings used where nothing else is given: only the application
    /// id and the access key have no default.
    pub fn with_defaults(app_id: String, access_key: String) -> (r: Config)
        ensures
            r.host@ == "127.0.0.1"@,
            r.port == 3000,
            r.geekai_app_id == app_id,
            r.geekai_access_key == access_key,
            r.geekai_resource_id@ == "volc.speech.dialog"@,
            r.geekai_app_key@ == "PlgvMymc7f3tQnJ6"@,
            r.geekai_default_speaker@ == "zh_female_vv_jupiter_bigtts"@,
            r.geekai_model@ == "O"@,
            r.geekai_channel == 1,
            r.geekai_format@ == "pcm_s16le"@,
            r.geekai_sample_rate == 24000,
    {
        Config {
            host: "127.0.0.1".to_string(),
            port: 3000,
            geekai_app_id: app_id,
            geekai_access_key: access_key,
            geekai_resource_id: "volc.speech.dialog".to_string(),
            geekai_app_key: "PlgvMymc7f3tQnJ6".to_string(),
            geekai_default_speaker: "zh_female_vv_jupiter_bigtts".to_string(),
            geekai_model: "O".to_string(),
            geekai_channel: 1,
            geekai_format: "pcm_s16le".to_string(),
            geekai_sample_rate: 24000,
        }
    }
}

/// What a realtime dialogue session needs: the four credentials sent when
/// connecting, and the voice and audio settings of the session.
#[derive(Debug, Clone)]
pub struct RealtimeConfig {
    pub app_id: String,
    pub access_key: String,
    pub resource_id: String,
    pub app_key: String,
    pub default_speaker: String,
    pub model: String,
    pub audio_channel: u8,
    pub audio_format: String,
    pub audio_sample_rate: u32,
}

impl<'a> From<&'a Config> for RealtimeConfig {
    fn from(cfg: &'a Config) -> (r: RealtimeConfig) {
        RealtimeConfig {
            app_id: cfg.geekai_app_id.clone(),
            access_key: cfg.geekai_access_key.clone(),
            resource_id: cfg.geekai_resource_id.clone(),
            app_key: cfg.geekai_app_key.clone(),
            default_speaker: cfg.geekai_default_speaker.clone(),
            model: cfg.geekai_model.clone(),
            audio_channel: cfg.geekai_channel,
            audio_format: cfg.geekai_format.clone(),
            audio_sample_rate: cfg.geekai_sample_rate,
        }
    }
}

impl<'a> vstd::std_specs::convert::FromSpecImpl<&'a Config> for RealtimeConfig {
    open spec fn obeys_from_spec() -> bool {
        true
    }

    open spec fn from_spec(cfg: &'a Config) -> RealtimeConfig {
        RealtimeConfig {
            app_id: cfg.geekai_app_id,
            access_key: cfg.geekai_access_key,
            resource_id: cfg.geekai_resource_id,
            app_key: cfg.geekai_app_key,
            default_speaker: cfg.geekai_default_speaker,
            model: cfg.geekai_model,
            audio_channel: cfg.geekai_channel,
            audio_format: cfg.geekai_format,
            audio_sample_rate: cfg.geekai_sample_rate,
        }
    }
}

} // verus!
