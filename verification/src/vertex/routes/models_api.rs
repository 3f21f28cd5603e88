//! What the secondary backend tells about its models.

use crate::config::settings::list_contains;
use crate::utils::text::{contains, str_contains, views};
use crate::vertex::model_loader::ModelConfig;
use vstd::prelude::*;

verus! {

/// When the listed models were made, as the list says it.
pub const MODEL_CREATED: u64 = 1677610602;

/// The ceiling of tokens of a listed model.
pub const LISTED_MAX_TOKENS: u32 = 32768;

/// How a model is served.
#[derive(Debug, Clone, Copy, PartialEq, Eq, Structural)]
pub enum ModelType {
    Vertex,
    VertexExpress,
}

impl ModelType {
    /// The name of the type.
    pub fn name(&self) -> (r: String)
        ensures
            r@ == (match *self {
                ModelType::Vertex => "vertex"@,
                ModelType::VertexExpress => "vertex_express"@,
            }),
    {
        match self {
            ModelType::Vertex => "vertex".to_string(),
            ModelType::VertexExpress => "vertex_express".to_string(),
        }
    }

    /// The type of that name, if there is one.
    pub fn from_name(name: &str) -> (r: Option<Self>)
        ensures
            r == (if name@ == "vertex"@ {
                Some(ModelType::Vertex)
            } else if name@ == "vertex_express"@ {
                Some(ModelType::VertexExpress)
            } else {
                None
            }),
    {
        if crate::utils::text::str_eq(name, "vertex") {
            Some(ModelType::Vertex)
        } else if crate::utils::text::str_eq(name, "vertex_express") {
            Some(ModelType::VertexExpress)
        } else {
            None
        }
    }
}

/// One model of the list.
#[derive(Debug, Clone)]
pub struct ModelInfo {
    pub id: String,
    pub model_type: ModelType,
}

/// The type under which a model is served: with credentials if it is listed
/// so, else with an express key if it is listed so.
pub open spec fn type_of(config: ModelConfig, model_id: Seq<char>) -> Option<ModelType> {
    if views(config.vertex_models@).contains(model_id) {
        Some(ModelType::Vertex)
    } else if views(config.vertex_express_models@).contains(model_id) {
        Some(ModelType::VertexExpress)
    } else {
        None
    }
}

/// The type under which a model is served.
pub fn get_model_type(config: &ModelConfig, model_id: &str) -> (r: Option<ModelType>)
    ensures
        r == type_of(*config, model_id@),
{
    if list_contains(&config.vertex_models, model_id) {
        Some(ModelType::Vertex)
    } else if list_contains(&config.vertex_express_models, model_id) {
        Some(ModelType::VertexExpress)
    } else {
        None
    }
}

/// Whether a model is served at all.
pub fn is_model_available(config: &ModelConfig, model_id: &str) -> (r: bool)
    ensures
        r == (type_of(*config, model_id@) is Some),
{
    get_model_type(config, model_id).is_some()
}

/// What is told about one model, if it is served.
pub fn get_model_info(config: &ModelConfig, model_id: &str) -> (r: Option<ModelInfo>)
    ensures
        r is Some <==> type_of(*config, model_id@) is Some,
        r is Some ==> r->0.id@ == model_id@ && Some(r->0.model_type) == type_of(
            *config,
            model_id@,
        ),
{
    match get_model_type(config, model_id) {
        Some(model_type) => Some(ModelInfo { id: model_id.to_string(), model_type }),
        None => None,
    }
}

/// The models of one type.
pub fn list_models_by_type(config: &ModelConfig, model_type: ModelType) -> (r: &Vec<String>)
    ensures
        *r == (match model_type {
            ModelType::Vertex => config.vertex_models,
            ModelType::VertexExpress => config.vertex_express_models,
        }),
{
    match model_type {
        ModelType::Vertex => &config.vertex_models,
        ModelType::VertexExpress => &config.vertex_express_models,
    }
}

/// Whether `listed` lists the models of `config`: those served with
/// credentials first, then those served with an express key.
pub open spec fn lists_models(listed: Seq<ModelInfo>, config: ModelConfig) -> bool {
    &&& listed.len() == config.vertex_models@.len() + config.vertex_express_models@.len()
    &&& forall|i: int|
        0 <= i < config.vertex_models@.len() ==> (#[trigger] listed[i]).id@
            == config.vertex_models@[i]@ && listed[i].model_type == ModelType::Vertex
    &&& forall|i: int|
        0 <= i < config.vertex_express_models@.len() ==> (#[trigger] listed[
            config.vertex_models@.len() + i
        ]).id@ == config.vertex_express_models@[i]@ && listed[config.vertex_models@.len()
            + i].model_type == ModelType::VertexExpress
}

/// The list of the models that are served.
pub fn list_models(config: &ModelConfig) -> (r: Vec<ModelInfo>)
    ensures
        lists_models(r@, *config),
{
    let mut r: Vec<ModelInfo> = Vec::new();
    let mut i: usize = 0;
    while i < config.vertex_models.len()
        invariant
            i <= config.vertex_models.len(),
            r@.len() == i,
            forall|k: int|
                0 <= k < i ==> (#[trigger] r@[k]).id@ == config.vertex_models@[k]@
                    && r@[k].model_type == ModelType::Vertex,
        decreases config.vertex_models.len() - i,
    {
        r.push(ModelInfo { id: config.vertex_models[i].clone(), model_type: ModelType::Vertex });
        i += 1;
    }
    let n = config.vertex_models.len();
    let mut j: usize = 0;
    while j < config.vertex_express_models.len()
        invariant
            j <= config.vertex_express_models.len(),
            n == config.vertex_models.len(),
            r@.len() == n + j,
            forall|k: int|
                0 <= k < n ==> (#[trigger] r@[k]).id@ == config.vertex_models@[k]@
                    && r@[k].model_type == ModelType::Vertex,
            forall|k: int|
                0 <= k < j ==> (#[trigger] r@[n + k]).id@ == config.vertex_express_models@[k]@
                    && r@[n + k].model_type == ModelType::VertexExpress,
        decreases config.vertex_express_models.len() - j,
    {
        r.push(
            ModelInfo {
                id: config.vertex_express_models[j].clone(),
                model_type: ModelType::VertexExpress,
            },
        );
        j += 1;
    }
    r
}

/// What a model can do, and within which limits.
#[derive(Debug, Clone, Copy, PartialEq, Eq, Structural)]
pub struct ModelCapabilities {
    pub supports_streaming: bool,
    pub supports_functions: bool,
    pub supports_vision: bool,
    pub max_tokens: u32,
    pub context_window: u32,
    pub supports_json_mode: bool,
    pub requests_per_minute: u32,
    pub tokens_per_minute: u32,
}

/// What a model of a type can do. A model served with credentials sees
/// images if its name says `vision` or `gemini`, and has the long context
/// window if its name says `gemini`.
pub open spec fn capabilities_of(model_type: ModelType, model_id: Seq<char>) -> ModelCapabilities {
    match model_type {
        ModelType::Vertex => ModelCapabilities {
            supports_streaming: true,
            supports_functions: true,
            supports_vision: contains(model_id, "vision"@) || contains(model_id, "gemini"@),
            max_tokens: 32768,
            context_window: if contains(model_id, "gemini"@) {
                1000000
            } else {
                32768
            },
            supports_json_mode: true,
            requests_per_minute: 60,
            tokens_per_minute: 60000,
        },
        ModelType::VertexExpress => ModelCapabilities {
            supports_streaming: true,
            supports_functions: false,
            supports_vision: false,
            max_tokens: 8192,
            context_window: 8192,
            supports_json_mode: false,
            requests_per_minute: 600,
            tokens_per_minute: 100000,
        },
    }
}

/// What a model can do, if it is served.
pub fn get_model_capabilities(config: &ModelConfig, model_id: &str) -> (r: Option<
    ModelCapabilities,
>)
    ensures
        r == (match type_of(*config, model_id@) {
            Some(t) => Some(capabilities_of(t, model_id@)),
            None => None,
        }),
{
    match get_model_type(config, model_id) {
        Some(ModelType::Vertex) => {
            let gemini = str_contains(model_id, "gemini");
            Some(
                ModelCapabilities {
                    supports_streaming: true,
                    supports_functions: true,
                    supports_vision: str_contains(model_id, "vision") || gemini,
                    max_tokens: 32768,
                    context_window: if gemini {
                        1000000
                    } else {
                        32768
                    },
                    supports_json_mode: true,
                    requests_per_minute: 60,
                    tokens_per_minute: 60000,
                },
            )
        },
        Some(ModelType::VertexExpress) => Some(
            ModelCapabilities {
                supports_streaming: true,
                supports_functions: false,
                supports_vision: false,
                max_tokens: 8192,
                context_window: 8192,
                supports_json_mode: false,
                requests_per_minute: 600,
                tokens_per_minute: 100000,
            },
        ),
        None => None,
    }
}

} // verus!
