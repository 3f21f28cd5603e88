//! The client of the secondary backend and what is told about it.
//!
//! The caller keeps the client, counts the credential files on disk and
//! hands the count over.

use crate::config::settings::Settings;
use crate::models::schemas::{duplicate_opt, opt_view};
use crate::utils::text::{blank, chars_of, is_blank, views};
use crate::vertex::config::{configured, VertexConfig, VertexConfigView};
use crate::vertex::credentials_manager::{service_accounts, CredentialManager};
use vstd::prelude::*;

verus! {

/// The client of the secondary backend.
#[derive(Debug, Clone)]
pub struct VertexAIClient {
    pub config: VertexConfig,
    pub is_initialized: bool,
}

/// Whether a client with the configuration `c` has credentials when
/// `credential_files` credential files are on disk: a key, credentials
/// from the settings, or a file.
pub open spec fn credentials_present(c: VertexConfigView, credential_files: usize) -> bool {
    c.api_key.len() > 0 || c.google_credentials_json is Some || credential_files > 0
}

impl VertexAIClient {
    /// A client that has not been initialized.
    pub fn new(config: VertexConfig) -> (client: Self)
        ensures
            client.config == config,
            !client.is_initialized,
    {
        VertexAIClient { config, is_initialized: false }
    }

    /// Whether the client has credentials.
    pub fn has_credentials(&self, credential_files: usize) -> (r: bool)
        ensures
            r == credentials_present(self.config@, credential_files),
    {
        !self.config.api_key.as_str().is_empty() || self.config.google_credentials_json.is_some()
            || credential_files > 0
    }

    /// Initializes the client: it is initialized from now on if it was
    /// before or has credentials.
    pub fn initialize(&mut self, credential_files: usize)
        ensures
            final(self).config == old(self).config,
            final(self).is_initialized == (old(self).is_initialized || credentials_present(
                old(self).config@,
                credential_files,
            )),
    {
        if !self.is_initialized && self.has_credentials(credential_files) {
            self.is_initialized = true;
        }
    }
}

/// The service accounts in the credentials of the settings that are to be
/// stored as files: none where the credentials are blank.
pub open spec fn accounts_to_store(s: Settings) -> Seq<Seq<char>> {
    if is_blank(s.google_credentials_json@) {
        Seq::<Seq<char>>::empty()
    } else {
        service_accounts(s.google_credentials_json@)
    }
}

/// Reads the service accounts that are to be stored as files out of the
/// settings.
pub fn credentials_to_store(settings: &Settings) -> (r: Vec<String>)
    ensures
        views(r@) == accounts_to_store(*settings),
{
    let text = chars_of(settings.google_credentials_json.as_str());
    if blank(text.as_slice()) {
        let r: Vec<String> = Vec::new();
        proof {
            assert(views(r@) == Seq::<Seq<char>>::empty());
        }
        r
    } else {
        CredentialManager::parse_multiple_json_credentials(
            settings.google_credentials_json.as_str(),
        )
    }
}

/// Makes the client from the settings and the variables and initializes
/// it. `credential_files` counts the credential files on disk after those
/// of the settings have been stored.
pub fn init_vertex_ai(settings: &Settings, vars: &Vec<(String, String)>, credential_files: usize) -> (client:
    VertexAIClient)
    ensures
        client.config@ == configured(*settings, vars@),
        client.is_initialized == credentials_present(
            configured(*settings, vars@),
            credential_files,
        ),
{
    let mut client = VertexAIClient::new(VertexConfig::from_settings(settings, vars));
    client.initialize(credential_files);
    client
}

/// Whether the backend can be used: there is a client, it is initialized
/// and it has credentials.
pub fn is_vertex_ai_available(client: Option<&VertexAIClient>, credential_files: usize) -> (r: bool)
    ensures
        r == (match client {
            Some(c) => c.is_initialized && credentials_present(c.config@, credential_files),
            None => false,
        }),
{
    match client {
        Some(c) => c.is_initialized && c.has_credentials(credential_files),
        None => false,
    }
}

/// What is told about the client.
#[derive(Debug, Clone)]
pub struct VertexAiStatus {
    pub initialized: bool,
    pub has_credentials: bool,
    pub api_key_set: Option<bool>,
    pub google_credentials_set: Option<bool>,
    pub project_id: Option<String>,
    pub location: Option<String>,
    pub vertex_express_keys_count: Option<usize>,
    pub error: Option<String>,
}

/// Whether `status` tells of the client `client`: of its state and its
/// configuration where there is one, of its absence where there is none.
pub open spec fn tells_of(status: VertexAiStatus, client: Option<&VertexAIClient>, credential_files: usize) -> bool {
    match client {
        Some(c) => {
            &&& status.initialized == c.is_initialized
            &&& status.has_credentials == credentials_present(c.config@, credential_files)
            &&& status.api_key_set == Some(c.config@.api_key.len() > 0)
            &&& status.google_credentials_set == Some(c.config@.google_credentials_json is Some)
            &&& opt_view(status.project_id) == c.config@.project_id
            &&& opt_view(status.location) == Some(c.config@.location)
            &&& status.vertex_express_keys_count == Some(c.config.vertex_express_api_keys@.len() as usize)
            &&& status.error is None
        },
        None => {
            &&& !status.initialized
            &&& !status.has_credentials
            &&& status.api_key_set is None
            &&& status.google_credentials_set is None
            &&& status.project_id is None
            &&& status.location is None
            &&& status.vertex_express_keys_count is None
            &&& opt_view(status.error) == Some("No Vertex AI client available"@)
        },
    }
}

/// Tells about the client.
pub fn get_vertex_ai_status(client: Option<&VertexAIClient>, credential_files: usize) -> (status:
    VertexAiStatus)
    ensures
        tells_of(status, client, credential_files),
{
    match client {
        Some(c) => VertexAiStatus {
            initialized: c.is_initialized,
            has_credentials: c.has_credentials(credential_files),
            api_key_set: Some(!c.config.api_key.as_str().is_empty()),
            google_credentials_set: Some(c.config.google_credentials_json.is_some()),
            project_id: duplicate_opt(&c.config.project_id),
            location: Some(c.config.location.clone()),
            vertex_express_keys_count: Some(c.config.vertex_express_api_keys.len()),
            error: None,
        },
        None => VertexAiStatus {
            initialized: false,
            has_credentials: false,
            api_key_set: None,
            google_credentials_set: None,
            project_id: None,
            location: None,
            vertex_express_keys_count: None,
            error: Some("No Vertex AI client available".to_string()),
        },
    }
}

} // verus!
