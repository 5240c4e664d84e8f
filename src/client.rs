use vstd::prelude::*;

use crate::config::RealtimeConfig;
use crate::error::{AppError, ErrorKind};
use crate::session::{content_is_acceptable, initial_view, RealtimeSession, SynthesisInput};

verus! {

/// A field-by-field copy of the settings.
pub fn copy_config(c: &RealtimeConfig) -> (r: RealtimeConfig)
    ensures
        r == *c,
{
    RealtimeConfig {
        app_id: c.app_id.clone(),
        access_key: c.access_key.clone(),
        resource_id: c.resource_id.clone(),
        app_key: c.app_key.clone(),
        default_speaker: c.default_speaker.clone(),
        model: c.model.clone(),
        audio_channel: c.audio_channel,
        audio_format: c.audio_format.clone(),
        audio_sample_rate: c.audio_sample_rate,
    }
}

/// What every request handler shares.
#[derive(Clone)]
pub struct AppState {
    pub realtime_client: std::sync::Arc<RealtimeClient>,
}

/// Makes sessions for the realtime dialogue service. Opening the connection
/// itself, with the credentials of `config`, is up to the caller; one
/// session is driven per connection.
pub struct RealtimeClient {
    cfg: RealtimeConfig,
}

impl RealtimeClient {
    pub closed spec fn spec_config(&self) -> RealtimeConfig {
        self.cfg
    }

    pub fn new(cfg: RealtimeConfig) -> (r: RealtimeClient)
        ensures
            r.spec_config() == cfg,
    {
        RealtimeClient { cfg }
    }

    pub fn config(&self) -> (r: &RealtimeConfig)
        ensures
            *r == self.spec_config(),
    {
        &self.cfg
    }

    /// A fresh session, under a new random id, that will submit `input`.
    pub fn open_session(&self, input: SynthesisInput) -> (r: Result<RealtimeSession, AppError>)
        ensures
            r is Ok <==> content_is_acceptable(self.spec_config(), input),
            r is Err ==> r->Err_0.kind() == ErrorKind::InvalidInput,
            r is Ok ==> r->Ok_0.wf() && exists|id: Seq<char>|
                #![trigger vstd::utf8::encode_utf8(id)]
                id.len() == 36 && r->Ok_0@ == initial_view(
                    self.spec_config(),
                    vstd::utf8::encode_utf8(id),
                    input,
                ),
    {
        RealtimeSession::start(copy_config(&self.cfg), input)
    }
}

} // verus!
