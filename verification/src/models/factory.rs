//! Picking a provider for a configured model.
//!
//! A model's `provider` names its provider by class path.  The providers
//! are built only with their crate features (`anthropic`, `openai`,
//! `deepseek`); this build has none of them, so each known provider is
//! reported as needing its feature, and any other path as unknown.
use crate::config::ModelConfig;
use crate::error::{HarnessError, ModelError};
use crate::models::anthropic::AnthropicModel;
use crate::models::openai::OpenAIModel;
use crate::text::{concat3, owned, str_eq};
use vstd::prelude::*;

verus! {

/// A model of one of the providers.
#[derive(Debug)]
pub enum ProviderModel {
    /// An Anthropic model.
    Anthropic(AnthropicModel),
    /// An OpenAI model.
    OpenAI(OpenAIModel),
}

/// The message for a provider whose feature this build lacks, if
/// `provider` names a known one.
pub open spec fn feature_message(provider: Seq<char>) -> Option<Seq<char>> {
    if provider == "langchain_anthropic:ChatAnthropic"@ {
        Some("Anthropic provider requires 'anthropic' feature. Enable with: --features anthropic"@)
    } else if provider == "langchain_openai:ChatOpenAI"@ {
        Some("OpenAI provider requires 'openai' feature. Enable with: --features openai"@)
    } else if provider == "langchain_deepseek:ChatDeepSeek"@ {
        Some("DeepSeek provider requires 'deepseek' feature. Enable with: --features deepseek"@)
    } else {
        None
    }
}

/// The message for a provider path that is not known.
pub open spec fn unknown_message(provider: Seq<char>) -> Seq<char> {
    "Unknown provider class path: "@ + provider
        + ". Supported providers: langchain_anthropic:ChatAnthropic, langchain_openai:ChatOpenAI, langchain_deepseek:ChatDeepSeek"@
}

/// The factory of models.
#[derive(Debug)]
pub struct ModelFactory;

impl ModelFactory {
    /// The model a configuration describes.  In this build it fails with
    /// `NotFound`: for a known provider, saying which feature it needs;
    /// for any other, saying that the path is unknown and which are
    /// supported.
    pub fn create_model(config: &ModelConfig) -> (r: Result<ProviderModel, HarnessError>)
        ensures
            r matches Err(e) && e matches HarnessError::Model(ModelError::NotFound(m)) && m@
                == match feature_message(config.provider@) {
                Some(f) => f,
                None => unknown_message(config.provider@),
            },
    {
        let p = config.provider.as_str();
        let msg = if str_eq(p, "langchain_anthropic:ChatAnthropic") {
            owned("Anthropic provider requires 'anthropic' feature. Enable with: --features anthropic")
        } else if str_eq(p, "langchain_openai:ChatOpenAI") {
            owned("OpenAI provider requires 'openai' feature. Enable with: --features openai")
        } else if str_eq(p, "langchain_deepseek:ChatDeepSeek") {
            owned("DeepSeek provider requires 'deepseek' feature. Enable with: --features deepseek")
        } else {
            concat3(
                "Unknown provider class path: ",
                p,
                ". Supported providers: langchain_anthropic:ChatAnthropic, langchain_openai:ChatOpenAI, langchain_deepseek:ChatDeepSeek",
            )
        };
        Err(HarnessError::Model(ModelError::NotFound(msg)))
    }

    /// The model a configuration describes; whether thinking is wanted
    /// does not change which.
    pub fn create_model_with_thinking(config: &ModelConfig, thinking_enabled: bool) -> (r: Result<
        ProviderModel,
        HarnessError,
    >)
        ensures
            r matches Err(e) && e matches HarnessError::Model(ModelError::NotFound(m)) && m@
                == match feature_message(config.provider@) {
                Some(f) => f,
                None => unknown_message(config.provider@),
            },
    {
        Self::create_model(config)
    }
}

} // verus!
