//! The configuration of the secondary backend, made from the settings and
//! from the variables of the process.

use crate::config::loader::{lookup, value_or, var_named};
use crate::config::settings::{comma_items, parse_comma_separated, Settings};
use crate::models::schemas::opt_view;
use crate::utils::numbers::{millis_spec, parse_millis, parse_signed, signed_spec};
use crate::utils::text::{append_str, chars_of, str_eq, string_of, views};
use vstd::prelude::*;

verus! {

/// Where the model lists are fetched from unless the variable names
/// another place.
pub const DEFAULT_MODELS_CONFIG_URL: &'static str = "https://raw.githubusercontent.com/gzzhongqi/vertex2openai/refs/heads/main/vertexModels.json";

/// The region that is used unless the variable names another.
pub const DEFAULT_LOCATION: &'static str = "us-central1";

/// The configuration of the secondary backend.
#[derive(Debug, Clone)]
pub struct VertexConfig {
    pub credentials_dir: String,
    pub api_key: String,
    pub google_credentials_json: Option<String>,
    pub project_id: Option<String>,
    pub location: String,
    pub models_config_url: String,
    pub vertex_express_api_keys: Vec<String>,
    pub fake_streaming_enabled: bool,
    pub fake_streaming_interval_ms: u64,
    pub fake_streaming_chunk_size: i32,
    pub fake_streaming_delay_per_chunk_ms: u64,
}

/// What a configuration says.
pub struct VertexConfigView {
    pub credentials_dir: Seq<char>,
    pub api_key: Seq<char>,
    pub google_credentials_json: Option<Seq<char>>,
    pub project_id: Option<Seq<char>>,
    pub location: Seq<char>,
    pub models_config_url: Seq<char>,
    pub vertex_express_api_keys: Seq<Seq<char>>,
    pub fake_streaming_enabled: bool,
    pub fake_streaming_interval_ms: u64,
    pub fake_streaming_chunk_size: i32,
    pub fake_streaming_delay_per_chunk_ms: u64,
}

impl View for VertexConfig {
    type V = VertexConfigView;

    open spec fn view(&self) -> VertexConfigView {
        VertexConfigView {
            credentials_dir: self.credentials_dir@,
            api_key: self.api_key@,
            google_credentials_json: opt_view(self.google_credentials_json),
            project_id: opt_view(self.project_id),
            location: self.location@,
            models_config_url: self.models_config_url@,
            vertex_express_api_keys: views(self.vertex_express_api_keys@),
            fake_streaming_enabled: self.fake_streaming_enabled,
            fake_streaming_interval_ms: self.fake_streaming_interval_ms,
            fake_streaming_chunk_size: self.fake_streaming_chunk_size,
            fake_streaming_delay_per_chunk_ms: self.fake_streaming_delay_per_chunk_ms,
        }
    }
}

/// The directory `credentials` under the directory `dir`.
pub open spec fn credentials_under(dir: Seq<char>) -> Seq<char> {
    if dir.len() == 0 || dir.last() == '/' {
        dir + "credentials"@
    } else {
        dir + "/"@ + "credentials"@
    }
}

/// A text, unless it is empty.
pub open spec fn unless_empty(text: Seq<char>) -> Option<Seq<char>> {
    if text.len() == 0 {
        None
    } else {
        Some(text)
    }
}

/// The configuration that the settings `s` and the variables `vars` give.
pub open spec fn configured(s: Settings, vars: Seq<(String, String)>) -> VertexConfigView {
    VertexConfigView {
        credentials_dir: credentials_under(s.storage_dir@),
        api_key: s.password@,
        google_credentials_json: unless_empty(s.google_credentials_json@),
        project_id: var_named(vars, "VERTEX_PROJECT_ID"@),
        location: value_or(var_named(vars, "VERTEX_LOCATION"@), DEFAULT_LOCATION@),
        models_config_url: value_or(
            var_named(vars, "VERTEX_MODELS_CONFIG_URL"@),
            DEFAULT_MODELS_CONFIG_URL@,
        ),
        vertex_express_api_keys: comma_items(s.vertex_express_api_key@),
        fake_streaming_enabled: s.fake_streaming,
        fake_streaming_interval_ms: s.fake_streaming_interval_ms,
        fake_streaming_chunk_size: s.fake_streaming_chunk_size,
        fake_streaming_delay_per_chunk_ms: s.fake_streaming_delay_per_chunk_ms,
    }
}

/// Why a new value was refused.
#[derive(Debug, Clone, Copy, PartialEq, Eq, Structural)]
pub enum VertexConfigError {
    /// A switch is neither `true` nor `false`.
    NotASwitch,
    /// A number cannot be read.
    NotANumber,
}

/// Whether `name` is a variable of this configuration.
pub open spec fn known_variable(name: Seq<char>) -> bool {
    name == "VERTEX_API_KEY"@ || name == "GOOGLE_CREDENTIALS_JSON"@ || name
        == "VERTEX_PROJECT_ID"@ || name == "VERTEX_LOCATION"@ || name
        == "VERTEX_MODELS_CONFIG_URL"@ || name == "VERTEX_EXPRESS_API_KEY"@ || name
        == "FAKE_STREAMING"@ || name == "FAKE_STREAMING_INTERVAL"@ || name
        == "FAKE_STREAMING_CHUNK_SIZE"@ || name == "FAKE_STREAMING_DELAY_PER_CHUNK"@
}

/// The switch that `value` writes: `true` or `false`, nothing else.
pub open spec fn switch_spec(value: Seq<char>) -> Option<bool> {
    if value == "true"@ {
        Some(true)
    } else if value == "false"@ {
        Some(false)
    } else {
        None
    }
}

/// Why the value `value` is refused for the variable `name`, if it is.
pub open spec fn refusal(name: Seq<char>, value: Seq<char>) -> Option<VertexConfigError> {
    if name == "FAKE_STREAMING"@ && switch_spec(value) is None {
        Some(VertexConfigError::NotASwitch)
    } else if (name == "FAKE_STREAMING_INTERVAL"@ || name == "FAKE_STREAMING_DELAY_PER_CHUNK"@)
        && millis_spec(value) is None {
        Some(VertexConfigError::NotANumber)
    } else if name == "FAKE_STREAMING_CHUNK_SIZE"@ && signed_spec(value, 0, i32::MAX as i64)
        is None {
        Some(VertexConfigError::NotANumber)
    } else {
        None
    }
}

/// The configuration `c` after the variable `name` has been set to a value
/// that is not refused.
pub open spec fn config_with(c: VertexConfigView, name: Seq<char>, value: Seq<char>) -> VertexConfigView {
    if name == "VERTEX_API_KEY"@ {
        VertexConfigView { api_key: value, ..c }
    } else if name == "GOOGLE_CREDENTIALS_JSON"@ {
        VertexConfigView { google_credentials_json: Some(value), ..c }
    } else if name == "VERTEX_PROJECT_ID"@ {
        VertexConfigView { project_id: Some(value), ..c }
    } else if name == "VERTEX_LOCATION"@ {
        VertexConfigView { location: value, ..c }
    } else if name == "VERTEX_MODELS_CONFIG_URL"@ {
        VertexConfigView { models_config_url: value, ..c }
    } else if name == "VERTEX_EXPRESS_API_KEY"@ {
        VertexConfigView { vertex_express_api_keys: comma_items(value), ..c }
    } else if name == "FAKE_STREAMING"@ {
        VertexConfigView { fake_streaming_enabled: switch_spec(value) == Some(true), ..c }
    } else if name == "FAKE_STREAMING_INTERVAL"@ {
        VertexConfigView { fake_streaming_interval_ms: millis_spec(value)->0, ..c }
    } else if name == "FAKE_STREAMING_CHUNK_SIZE"@ {
        VertexConfigView {
            fake_streaming_chunk_size: signed_spec(value, 0, i32::MAX as i64)->0 as i32,
            ..c
        }
    } else if name == "FAKE_STREAMING_DELAY_PER_CHUNK"@ {
        VertexConfigView { fake_streaming_delay_per_chunk_ms: millis_spec(value)->0, ..c }
    } else {
        c
    }
}

/// Whether `new` holds the settings `old` after the variable `name` has been
/// set to a value that is not refused.
pub open spec fn settings_with(old: Settings, new: Settings, name: Seq<char>, value: Seq<char>) -> bool {
    if name == "VERTEX_API_KEY"@ {
        new.password@ == value && (Settings { password: old.password, ..new }) == old
    } else if name == "GOOGLE_CREDENTIALS_JSON"@ {
        new.google_credentials_json@ == value && (Settings {
            google_credentials_json: old.google_credentials_json,
            ..new
        }) == old
    } else if name == "VERTEX_EXPRESS_API_KEY"@ {
        new.vertex_express_api_key@ == value && (Settings {
            vertex_express_api_key: old.vertex_express_api_key,
            ..new
        }) == old
    } else if name == "FAKE_STREAMING"@ {
        new == (Settings { fake_streaming: switch_spec(value) == Some(true), ..old })
    } else if name == "FAKE_STREAMING_INTERVAL"@ {
        new == (Settings { fake_streaming_interval_ms: millis_spec(value)->0, ..old })
    } else if name == "FAKE_STREAMING_CHUNK_SIZE"@ {
        new == (Settings {
            fake_streaming_chunk_size: signed_spec(value, 0, i32::MAX as i64)->0 as i32,
            ..old
        })
    } else if name == "FAKE_STREAMING_DELAY_PER_CHUNK"@ {
        new == (Settings { fake_streaming_delay_per_chunk_ms: millis_spec(value)->0, ..old })
    } else {
        new == old
    }
}

/// No two variables of the configuration have the same name.
proof fn lemma_variables_differ()
    ensures
        "VERTEX_API_KEY"@ != "GOOGLE_CREDENTIALS_JSON"@,
        "VERTEX_API_KEY"@ != "VERTEX_PROJECT_ID"@,
        "VERTEX_API_KEY"@ != "VERTEX_LOCATION"@,
        "VERTEX_API_KEY"@ != "VERTEX_MODELS_CONFIG_URL"@,
        "VERTEX_API_KEY"@ != "VERTEX_EXPRESS_API_KEY"@,
        "VERTEX_API_KEY"@ != "FAKE_STREAMING"@,
        "VERTEX_API_KEY"@ != "FAKE_STREAMING_INTERVAL"@,
        "VERTEX_API_KEY"@ != "FAKE_STREAMING_CHUNK_SIZE"@,
        "VERTEX_API_KEY"@ != "FAKE_STREAMING_DELAY_PER_CHUNK"@,
        "GOOGLE_CREDENTIALS_JSON"@ != "VERTEX_PROJECT_ID"@,
        "GOOGLE_CREDENTIALS_JSON"@ != "VERTEX_LOCATION"@,
        "GOOGLE_CREDENTIALS_JSON"@ != "VERTEX_MODELS_CONFIG_URL"@,
        "GOOGLE_CREDENTIALS_JSON"@ != "VERTEX_EXPRESS_API_KEY"@,
        "GOOGLE_CREDENTIALS_JSON"@ != "FAKE_STREAMING"@,
        "GOOGLE_CREDENTIALS_JSON"@ != "FAKE_STREAMING_INTERVAL"@,
        "GOOGLE_CREDENTIALS_JSON"@ != "FAKE_STREAMING_CHUNK_SIZE"@,
        "GOOGLE_CREDENTIALS_JSON"@ != "FAKE_STREAMING_DELAY_PER_CHUNK"@,
        "VERTEX_PROJECT_ID"@ != "VERTEX_LOCATION"@,
        "VERTEX_PROJECT_ID"@ != "VERTEX_MODELS_CONFIG_URL"@,
        "VERTEX_PROJECT_ID"@ != "VERTEX_EXPRESS_API_KEY"@,
        "VERTEX_PROJECT_ID"@ != "FAKE_STREAMING"@,
        "VERTEX_PROJECT_ID"@ != "FAKE_STREAMING_INTERVAL"@,
        "VERTEX_PROJECT_ID"@ != "FAKE_STREAMING_CHUNK_SIZE"@,
        "VERTEX_PROJECT_ID"@ != "FAKE_STREAMING_DELAY_PER_CHUNK"@,
        "VERTEX_LOCATION"@ != "VERTEX_MODELS_CONFIG_URL"@,
        "VERTEX_LOCATION"@ != "VERTEX_EXPRESS_API_KEY"@,
        "VERTEX_LOCATION"@ != "FAKE_STREAMING"@,
        "VERTEX_LOCATION"@ != "FAKE_STREAMING_INTERVAL"@,
        "VERTEX_LOCATION"@ != "FAKE_STREAMING_CHUNK_SIZE"@,
        "VERTEX_LOCATION"@ != "FAKE_STREAMING_DELAY_PER_CHUNK"@,
        "VERTEX_MODELS_CONFIG_URL"@ != "VERTEX_EXPRESS_API_KEY"@,
        "VERTEX_MODELS_CONFIG_URL"@ != "FAKE_STREAMING"@,
        "VERTEX_MODELS_CONFIG_URL"@ != "FAKE_STREAMING_INTERVAL"@,
        "VERTEX_MODELS_CONFIG_URL"@ != "FAKE_STREAMING_CHUNK_SIZE"@,
        "VERTEX_MODELS_CONFIG_URL"@ != "FAKE_STREAMING_DELAY_PER_CHUNK"@,
        "VERTEX_EXPRESS_API_KEY"@ != "FAKE_STREAMING"@,
        "VERTEX_EXPRESS_API_KEY"@ != "FAKE_STREAMING_INTERVAL"@,
        "VERTEX_EXPRESS_API_KEY"@ != "FAKE_STREAMING_CHUNK_SIZE"@,
        "VERTEX_EXPRESS_API_KEY"@ != "FAKE_STREAMING_DELAY_PER_CHUNK"@,
        "FAKE_STREAMING"@ != "FAKE_STREAMING_INTERVAL"@,
        "FAKE_STREAMING"@ != "FAKE_STREAMING_CHUNK_SIZE"@,
        "FAKE_STREAMING"@ != "FAKE_STREAMING_DELAY_PER_CHUNK"@,
        "FAKE_STREAMING_INTERVAL"@ != "FAKE_STREAMING_CHUNK_SIZE"@,
        "FAKE_STREAMING_INTERVAL"@ != "FAKE_STREAMING_DELAY_PER_CHUNK"@,
        "FAKE_STREAMING_CHUNK_SIZE"@ != "FAKE_STREAMING_DELAY_PER_CHUNK"@,
        "true"@ != "false"@,
{
    reveal_strlit("VERTEX_API_KEY");
    reveal_strlit("GOOGLE_CREDENTIALS_JSON");
    reveal_strlit("VERTEX_PROJECT_ID");
    reveal_strlit("VERTEX_LOCATION");
    reveal_strlit("VERTEX_MODELS_CONFIG_URL");
    reveal_strlit("VERTEX_EXPRESS_API_KEY");
    reveal_strlit("FAKE_STREAMING");
    reveal_strlit("FAKE_STREAMING_INTERVAL");
    reveal_strlit("FAKE_STREAMING_CHUNK_SIZE");
    reveal_strlit("FAKE_STREAMING_DELAY_PER_CHUNK");
    reveal_strlit("true");
    reveal_strlit("false");
    assert("VERTEX_API_KEY"@.len() == 14 && "VERTEX_API_KEY"@[0] == 'V');
    assert("GOOGLE_CREDENTIALS_JSON"@.len() == 23 && "GOOGLE_CREDENTIALS_JSON"@[0] == 'G');
    assert("VERTEX_PROJECT_ID"@.len() == 17 && "VERTEX_PROJECT_ID"@[0] == 'V');
    assert("VERTEX_LOCATION"@.len() == 15 && "VERTEX_LOCATION"@[0] == 'V');
    assert("VERTEX_MODELS_CONFIG_URL"@.len() == 24 && "VERTEX_MODELS_CONFIG_URL"@[0] == 'V');
    assert("VERTEX_EXPRESS_API_KEY"@.len() == 22 && "VERTEX_EXPRESS_API_KEY"@[0] == 'V');
    assert("FAKE_STREAMING"@.len() == 14 && "FAKE_STREAMING"@[0] == 'F');
    assert("FAKE_STREAMING_INTERVAL"@.len() == 23 && "FAKE_STREAMING_INTERVAL"@[0] == 'F');
    assert("FAKE_STREAMING_CHUNK_SIZE"@.len() == 25 && "FAKE_STREAMING_CHUNK_SIZE"@[0] == 'F');
    assert("FAKE_STREAMING_DELAY_PER_CHUNK"@.len() == 30 && "FAKE_STREAMING_DELAY_PER_CHUNK"@[0] == 'F');
    assert("true"@.len() == 4 && "true"@[0] == 't');
    assert("false"@.len() == 5 && "false"@[0] == 'f');
}

fn express_keys(text: &str) -> (r: Vec<String>)
    ensures
        views(r@) == comma_items(text@),
{
    parse_comma_separated(text)
}

fn variable(vars: &Vec<(String, String)>, name: &str) -> (r: Option<String>)
    ensures
        opt_view(r) == var_named(vars@, name@),
{
    match lookup(vars, name) {
        Some(value) => Some(value.clone()),
        None => None,
    }
}

fn or_text(value: Option<String>, unset: &str) -> (r: String)
    ensures
        r@ == value_or(opt_view(value), unset@),
{
    match value {
        Some(v) => v,
        None => unset.to_string(),
    }
}

impl VertexConfig {
    /// The configuration that the settings and the variables give: the
    /// password is the key, the credentials lie under the storage
    /// directory, and the project, the region and the place of the model
    /// lists come from the variables.
    pub fn from_settings(settings: &Settings, vars: &Vec<(String, String)>) -> (c: Self)
        ensures
            c@ == configured(*settings, vars@),
    {
        let dir = chars_of(settings.storage_dir.as_str());
        let mut credentials_dir: Vec<char> = Vec::new();
        append_str(&mut credentials_dir, settings.storage_dir.as_str());
        if dir.len() > 0 && dir[dir.len() - 1] != '/' {
            append_str(&mut credentials_dir, "/");
        }
        append_str(&mut credentials_dir, "credentials");
        let google_credentials_json = if settings.google_credentials_json.as_str().is_empty() {
            None
        } else {
            Some(settings.google_credentials_json.clone())
        };
        VertexConfig {
            credentials_dir: string_of(credentials_dir.as_slice()),
            api_key: settings.password.clone(),
            google_credentials_json,
            project_id: variable(vars, "VERTEX_PROJECT_ID"),
            location: or_text(variable(vars, "VERTEX_LOCATION"), DEFAULT_LOCATION),
            models_config_url: or_text(
                variable(vars, "VERTEX_MODELS_CONFIG_URL"),
                DEFAULT_MODELS_CONFIG_URL,
            ),
            vertex_express_api_keys: express_keys(settings.vertex_express_api_key.as_str()),
            fake_streaming_enabled: settings.fake_streaming,
            fake_streaming_interval_ms: settings.fake_streaming_interval_ms,
            fake_streaming_chunk_size: settings.fake_streaming_chunk_size,
            fake_streaming_delay_per_chunk_ms: settings.fake_streaming_delay_per_chunk_ms,
        }
    }

    /// Sets the variable `name` to `value`, here and in the settings. A
    /// value that cannot be read as the variable wants it is refused and
    /// changes nothing; so does a name that is no variable of this
    /// configuration, without an error. Says whether the name is known, so
    /// that the caller can set the variable of the process as well.
    pub fn update_config(&mut self, settings: &mut Settings, name: &str, value: String) -> (r:
        Result<bool, VertexConfigError>)
        ensures
            match r {
                Ok(known) => {
                    &&& refusal(name@, value@) is None
                    &&& known == known_variable(name@)
                    &&& final(self)@ == config_with(old(self)@, name@, value@)
                    &&& settings_with(*old(settings), *final(settings), name@, value@)
                },
                Err(e) => {
                    &&& refusal(name@, value@) == Some(e)
                    &&& *final(self) == *old(self)
                    &&& *final(settings) == *old(settings)
                },
            },
    {
        proof {
            lemma_variables_differ();
        }
        if str_eq(name, "VERTEX_API_KEY") {
            settings.password = value.clone();
            self.api_key = value;
        } else if str_eq(name, "GOOGLE_CREDENTIALS_JSON") {
            settings.google_credentials_json = value.clone();
            self.google_credentials_json = Some(value);
        } else if str_eq(name, "VERTEX_PROJECT_ID") {
            self.project_id = Some(value);
        } else if str_eq(name, "VERTEX_LOCATION") {
            self.location = value;
        } else if str_eq(name, "VERTEX_MODELS_CONFIG_URL") {
            self.models_config_url = value;
        } else if str_eq(name, "VERTEX_EXPRESS_API_KEY") {
            self.vertex_express_api_keys = express_keys(value.as_str());
            settings.vertex_express_api_key = value;
        } else if str_eq(name, "FAKE_STREAMING") {
            let on = if str_eq(value.as_str(), "true") {
                true
            } else if str_eq(value.as_str(), "false") {
                false
            } else {
                return Err(VertexConfigError::NotASwitch);
            };
            settings.fake_streaming = on;
            self.fake_streaming_enabled = on;
        } else if str_eq(name, "FAKE_STREAMING_INTERVAL") {
            let c = chars_of(value.as_str());
            match parse_millis(c.as_slice()) {
                Some(n) => {
                    settings.fake_streaming_interval_ms = n;
                    self.fake_streaming_interval_ms = n;
                },
                None => {
                    return Err(VertexConfigError::NotANumber);
                },
            }
        } else if str_eq(name, "FAKE_STREAMING_CHUNK_SIZE") {
            let c = chars_of(value.as_str());
            match parse_signed(c.as_slice(), 0, i32::MAX as i64) {
                Some(n) => {
                    settings.fake_streaming_chunk_size = n as i32;
                    self.fake_streaming_chunk_size = n as i32;
                },
                None => {
                    return Err(VertexConfigError::NotANumber);
                },
            }
        } else if str_eq(name, "FAKE_STREAMING_DELAY_PER_CHUNK") {
            let c = chars_of(value.as_str());
            match parse_millis(c.as_slice()) {
                Some(n) => {
                    settings.fake_streaming_delay_per_chunk_ms = n;
                    self.fake_streaming_delay_per_chunk_ms = n;
                },
                None => {
                    return Err(VertexConfigError::NotANumber);
                },
            }
        } else {
            return Ok(false);
        }
        Ok(true)
    }

    /// Takes the credentials, the express keys and the key over from the
    /// settings again; the rest stays.
    pub fn reload_config(&mut self, settings: &Settings)
        ensures
            final(self)@ == (VertexConfigView {
                google_credentials_json: unless_empty(settings.google_credentials_json@),
                vertex_express_api_keys: comma_items(settings.vertex_express_api_key@),
                api_key: settings.password@,
                ..old(self)@
            }),
    {
        self.google_credentials_json = if settings.google_credentials_json.as_str().is_empty() {
            None
        } else {
            Some(settings.google_credentials_json.clone())
        };
        self.vertex_express_api_keys = express_keys(settings.vertex_express_api_key.as_str());
        self.api_key = settings.password.clone();
    }
}

} // verus!
