//! The lists of models that the secondary backend serves.

use crate::models::schemas::opt_view;
use crate::utils::text::views;
use crate::vertex::routes::chat_api::{process_request_with_retry, retry_step, RetryStep};
use vstd::prelude::*;

verus! {

/// The models served with credentials and those served with an express key.
#[derive(Debug, Clone)]
pub struct ModelConfig {
    pub vertex_models: Vec<String>,
    pub vertex_express_models: Vec<String>,
}

impl ModelConfig {
    /// A configuration without models.
    pub fn new() -> (c: Self)
        ensures
            c.vertex_models@.len() == 0,
            c.vertex_express_models@.len() == 0,
    {
        ModelConfig { vertex_models: Vec::new(), vertex_express_models: Vec::new() }
    }

    /// A configuration with the given models.
    pub fn with_models(vertex_models: Vec<String>, vertex_express_models: Vec<String>) -> (c: Self)
        ensures
            c.vertex_models == vertex_models,
            c.vertex_express_models == vertex_express_models,
    {
        ModelConfig { vertex_models, vertex_express_models }
    }

    /// Whether `model_name` is served with credentials.
    pub fn is_vertex_model(&self, model_name: &str) -> (r: bool)
        ensures
            r == views(self.vertex_models@).contains(model_name@),
    {
        crate::config::settings::list_contains(&self.vertex_models, model_name)
    }

    /// Whether `model_name` is served with an express key.
    pub fn is_vertex_express_model(&self, model_name: &str) -> (r: bool)
        ensures
            r == views(self.vertex_express_models@).contains(model_name@),
    {
        crate::config::settings::list_contains(&self.vertex_express_models, model_name)
    }

    /// How many models are served with credentials, with an express key, and
    /// in all; the sum is held at the largest value.
    pub fn get_models_summary(&self) -> (r: (usize, usize, usize))
        ensures
            r.0 == self.vertex_models@.len(),
            r.1 == self.vertex_express_models@.len(),
            r.2 == (if r.0 + r.1 > usize::MAX {
                usize::MAX
            } else {
                (r.0 + r.1) as usize
            }),
    {
        let a = self.vertex_models.len();
        let b = self.vertex_express_models.len();
        let total = if a > usize::MAX - b {
            usize::MAX
        } else {
            a + b
        };
        (a, b, total)
    }
}

/// What stands under `key` in the JSON text `text`, as `serde_json` reads
/// it: nothing at all if the text is not JSON; else nothing if the text is
/// no object, has no such member, or the member is no array; else the items
/// of the array in order, each by its text if it is a string.
pub uninterp spec fn json_array_of(text: Seq<char>, key: Seq<char>) -> Option<
    Option<Seq<Option<Seq<char>>>>,
>;

/// The items of an array by their texts.
pub open spec fn item_views(items: Seq<Option<String>>) -> Seq<Option<Seq<char>>> {
    items.map_values(|item: Option<String>| opt_view(item))
}

/// An array by the texts of its items, if there is one.
pub open spec fn member_view(member: Option<Vec<Option<String>>>) -> Option<Seq<Option<Seq<char>>>> {
    match member {
        Some(items) => Some(item_views(items@)),
        None => None,
    }
}

/// What was read of a text, by the texts of the items.
pub open spec fn reading_view(reading: Option<Option<Vec<Option<String>>>>) -> Option<
    Option<Seq<Option<Seq<char>>>>,
> {
    match reading {
        Some(member) => Some(member_view(member)),
        None => None,
    }
}

/// Parses `text` with `serde_json::from_str`, asks the value for `key`
/// with `Value::get`, and reads each item of the array found there with
/// `Value::as_str`. A text that does not parse gives nothing; a value
/// without an array under `key` gives no array.
#[verifier::external_body]
fn json_array_member(text: &str, key: &str) -> (r: Option<Option<Vec<Option<String>>>>)
    ensures
        reading_view(r) == json_array_of(text@, key@),
{
    let value: serde_json::Value = serde_json::from_str(text).ok()?;
    Some(
        match value.get(key) {
            Some(serde_json::Value::Array(items)) => Some(
                items.iter().map(|item| item.as_str().map(|s| s.to_string())).collect(),
            ),
            _ => None,
        },
    )
}

/// Whether `text` is JSON.
pub open spec fn is_json(text: Seq<char>) -> bool {
    json_array_of(text, ""@) is Some
}

/// Whether `text` is JSON.
pub fn is_json_text(text: &str) -> (r: bool)
    ensures
        r == is_json(text@),
{
    json_array_member(text, "").is_some()
}

/// Why no model configuration could be read.
#[derive(Debug, Clone, Copy, PartialEq, Eq, Structural)]
pub enum ModelConfigError {
    /// The text is not JSON.
    NotJson,
    /// The name of a model is not a string.
    NotAString,
}

impl ModelConfigError {
    /// The text of the error.
    pub fn message(&self) -> (r: String)
        ensures
            r@ == (match *self {
                ModelConfigError::NotJson => "Failed to parse JSON response"@,
                ModelConfigError::NotAString => "Model name is not a string"@,
            }),
    {
        match self {
            ModelConfigError::NotJson => "Failed to parse JSON response".to_string(),
            ModelConfigError::NotAString => "Model name is not a string".to_string(),
        }
    }
}

/// Whether every item is a string.
pub open spec fn all_texts(items: Seq<Option<Seq<char>>>) -> bool {
    forall|i: int| 0 <= i < items.len() ==> (#[trigger] items[i]) is Some
}

/// The texts of items that are all strings.
pub open spec fn texts_of(items: Seq<Option<Seq<char>>>) -> Seq<Seq<char>> {
    items.map_values(|item: Option<Seq<char>>| item->0)
}

/// The model names in a member of a configuration: none where there is no
/// array, the items where all are strings, an error where one is not.
pub open spec fn model_list(member: Option<Seq<Option<Seq<char>>>>) -> Result<
    Seq<Seq<char>>,
    ModelConfigError,
> {
    match member {
        None => Ok(Seq::<Seq<char>>::empty()),
        Some(items) => if all_texts(items) {
            Ok(texts_of(items))
        } else {
            Err(ModelConfigError::NotAString)
        },
    }
}

/// A list of names, or the error, by the texts of the names.
pub open spec fn list_view(r: Result<Vec<String>, ModelConfigError>) -> Result<
    Seq<Seq<char>>,
    ModelConfigError,
> {
    match r {
        Ok(names) => Ok(views(names@)),
        Err(e) => Err(e),
    }
}

/// Reads the model names out of a member of a configuration.
pub fn extract_model_list(member: &Option<Vec<Option<String>>>) -> (r: Result<
    Vec<String>,
    ModelConfigError,
>)
    ensures
        list_view(r) == model_list(member_view(*member)),
{
    let mut names: Vec<String> = Vec::new();
    match member {
        None => {
            proof {
                assert(views(names@) == Seq::<Seq<char>>::empty());
            }
            Ok(names)
        },
        Some(items) => {
            let ghost all = item_views(items@);
            let mut i: usize = 0;
            while i < items.len()
                invariant
                    i <= items.len(),
                    all == item_views(items@),
                    member_view(*member) == Some(all),
                    forall|k: int| 0 <= k < i ==> (#[trigger] all[k]) is Some,
                    views(names@) == texts_of(all.take(i as int)),
                decreases items.len() - i,
            {
                match &items[i] {
                    Some(name) => {
                        let ghost before = views(names@);
                        names.push(name.clone());
                        proof {
                            assert(all[i as int] == Some(name@));
                            assert(views(names@) == before.push(name@));
                            assert(texts_of(all.take(i + 1)) == texts_of(all.take(i as int)).push(
                                name@,
                            ));
                        }
                    },
                    None => {
                        proof {
                            assert(all[i as int] is None);
                        }
                        return Err(ModelConfigError::NotAString);
                    },
                }
                i += 1;
            }
            proof {
                assert(all.take(items.len() as int) == all);
            }
            Ok(names)
        },
    }
}

/// What a model configuration says.
pub struct ModelConfigView {
    pub vertex_models: Seq<Seq<char>>,
    pub vertex_express_models: Seq<Seq<char>>,
}

impl View for ModelConfig {
    type V = ModelConfigView;

    open spec fn view(&self) -> ModelConfigView {
        ModelConfigView {
            vertex_models: views(self.vertex_models@),
            vertex_express_models: views(self.vertex_express_models@),
        }
    }
}

/// A configuration, or the error, by what the configuration says.
pub open spec fn config_view(r: Result<ModelConfig, ModelConfigError>) -> Result<
    ModelConfigView,
    ModelConfigError,
> {
    match r {
        Ok(c) => Ok(c@),
        Err(e) => Err(e),
    }
}

/// The configuration in a JSON text: the model names under `vertex_models`
/// and under `vertex_express_models`.
pub open spec fn models_config(text: Seq<char>) -> Result<ModelConfigView, ModelConfigError> {
    match json_array_of(text, "vertex_models"@) {
        None => Err(ModelConfigError::NotJson),
        Some(first) => match model_list(first) {
            Err(e) => Err(e),
            Ok(vertex_models) => match json_array_of(text, "vertex_express_models"@) {
                None => Err(ModelConfigError::NotJson),
                Some(second) => match model_list(second) {
                    Err(e) => Err(e),
                    Ok(vertex_express_models) => Ok(
                        ModelConfigView { vertex_models, vertex_express_models },
                    ),
                },
            },
        },
    }
}

/// Reads a model configuration out of a JSON text.
pub fn parse_models_config(text: &str) -> (r: Result<ModelConfig, ModelConfigError>)
    ensures
        config_view(r) == models_config(text@),
{
    let first = match json_array_member(text, "vertex_models") {
        Some(member) => member,
        None => {
            return Err(ModelConfigError::NotJson);
        },
    };
    let vertex_models = match extract_model_list(&first) {
        Ok(names) => names,
        Err(e) => {
            return Err(e);
        },
    };
    let second = match json_array_member(text, "vertex_express_models") {
        Some(member) => member,
        None => {
            return Err(ModelConfigError::NotJson);
        },
    };
    let vertex_express_models = match extract_model_list(&second) {
        Ok(names) => names,
        Err(e) => {
            return Err(e);
        },
    };
    Ok(ModelConfig::with_models(vertex_models, vertex_express_models))
}

/// How many times the configuration is asked for at most.
pub const FETCH_ATTEMPTS: usize = 3;

/// The wait after the first failed attempt, in milliseconds.
pub const FETCH_FIRST_DELAY_MS: u64 = 1000;

/// What follows an attempt to fetch the configuration.
#[derive(Debug, Clone)]
pub enum FetchStep {
    /// The configuration stands: the one that was read, or one without
    /// models after the last failure.
    Done(ModelConfig),
    /// The next attempt is made after waiting this long, in milliseconds.
    RetryAfter { delay_ms: u64 },
}

/// What a step says.
pub enum FetchStepView {
    Done(ModelConfigView),
    RetryAfter { delay_ms: u64 },
}

impl View for FetchStep {
    type V = FetchStepView;

    open spec fn view(&self) -> FetchStepView {
        match *self {
            FetchStep::Done(c) => FetchStepView::Done(c@),
            FetchStep::RetryAfter { delay_ms } => FetchStepView::RetryAfter { delay_ms },
        }
    }
}

/// The configuration without models.
pub open spec fn no_models() -> ModelConfigView {
    ModelConfigView {
        vertex_models: Seq::<Seq<char>>::empty(),
        vertex_express_models: Seq::<Seq<char>>::empty(),
    }
}

/// What follows attempt `attempt`, counted from zero, that brought the
/// text `response`, or none: a text that holds a configuration ends the
/// fetch with it; otherwise the next attempt follows a wait that doubles
/// each time, and the last failure ends the fetch without models.
pub open spec fn fetch_step(attempt: usize, response: Option<Seq<char>>) -> FetchStepView {
    if response is Some && models_config(response->0) is Ok {
        FetchStepView::Done(models_config(response->0)->Ok_0)
    } else {
        match retry_step(attempt, FETCH_ATTEMPTS, FETCH_FIRST_DELAY_MS) {
            RetryStep::GiveUp => FetchStepView::Done(no_models()),
            RetryStep::RetryAfter { delay_ms } => FetchStepView::RetryAfter { delay_ms },
        }
    }
}

/// Decides what follows an attempt to fetch the configuration. The caller
/// asks the remote place, hands over the text that came, waits where it is
/// told to, and asks again.
pub fn fetch_and_parse_models_config(attempt: usize, response: Option<&str>) -> (r: FetchStep)
    ensures
        r@ == fetch_step(
            attempt,
            match response {
                Some(t) => Some(t@),
                None => None,
            },
        ),
{
    match response {
        Some(text) => match parse_models_config(text) {
            Ok(config) => {
                return FetchStep::Done(config);
            },
            Err(_) => {},
        },
        None => {},
    }
    match process_request_with_retry(attempt, FETCH_ATTEMPTS, FETCH_FIRST_DELAY_MS) {
        RetryStep::GiveUp => {
            let config = ModelConfig::new();
            proof {
                assert(views(config.vertex_models@) == Seq::<Seq<char>>::empty());
                assert(views(config.vertex_express_models@) == Seq::<Seq<char>>::empty());
            }
            FetchStep::Done(config)
        },
        RetryStep::RetryAfter { delay_ms } => FetchStep::RetryAfter { delay_ms },
    }
}

} // verus!
