//! Which provider answers.
use vstd::prelude::*;

use crate::config::{
    first_text, number_setting, number_setting_of, text_setting, ProjectConfig,
};
use crate::model::{copy_option, opt_view};
use crate::text::same;

verus! {

/// What the environment says about providers.
pub struct ProviderEnv {
    pub provider: Option<String>,
    pub model: Option<String>,
    pub request_timeout_secs: Option<String>,
    pub num_ctx: Option<String>,
    pub ollama_base_url: Option<String>,
    pub openai_compat_base_url: Option<String>,
    pub openai_compat_api_key: Option<String>,
}

/// A provider to be built. What is missing has the provider's own default.
pub enum ProviderChoice {
    Ollama {
        model: String,
        base_url: Option<String>,
        request_timeout_secs: Option<u64>,
        num_ctx: Option<u32>,
    },
    OpenAiCompat {
        base_url: String,
        model: String,
        api_key: Option<String>,
        request_timeout_secs: Option<u64>,
    },
}

#[verifier::ext_equal]
pub enum ChoiceView {
    Ollama {
        model: Seq<char>,
        base_url: Option<Seq<char>>,
        request_timeout_secs: Option<u64>,
        num_ctx: Option<u32>,
    },
    OpenAiCompat {
        base_url: Seq<char>,
        model: Seq<char>,
        api_key: Option<Seq<char>>,
        request_timeout_secs: Option<u64>,
    },
}

impl View for ProviderChoice {
    type V = ChoiceView;

    open spec fn view(&self) -> ChoiceView {
        match self {
            ProviderChoice::Ollama { model, base_url, request_timeout_secs, num_ctx } =>
                ChoiceView::Ollama {
                model: model@,
                base_url: opt_view(*base_url),
                request_timeout_secs: *request_timeout_secs,
                num_ctx: *num_ctx,
            },
            ProviderChoice::OpenAiCompat { base_url, model, api_key, request_timeout_secs } =>
                ChoiceView::OpenAiCompat {
                base_url: base_url@,
                model: model@,
                api_key: opt_view(*api_key),
                request_timeout_secs: *request_timeout_secs,
            },
        }
    }
}

/// The request timeout that is set.
pub open spec fn timeout_of(cfg: ProjectConfig, env: ProviderEnv) -> Option<u64> {
    number_setting_of(
        opt_view(env.request_timeout_secs),
        cfg.request_timeout_secs,
        u64::MAX,
    )
}

/// The context window that is set.
pub open spec fn window_of(cfg: ProjectConfig, env: ProviderEnv) -> Option<u32> {
    let file = match cfg.num_ctx {
        Some(n) => Some(n as u64),
        None => None,
    };
    match number_setting_of(opt_view(env.num_ctx), file, u32::MAX as u64) {
        Some(n) => Some(n as u32),
        None => None,
    }
}

/// The provider of a name, or why there is none.
pub open spec fn chosen_provider(
    provider: Seq<char>,
    model: Option<Seq<char>>,
    cfg: ProjectConfig,
    env: ProviderEnv,
) -> Result<ChoiceView, Seq<char>> {
    if provider == "ollama"@ {
        Ok(
            ChoiceView::Ollama {
                model: match model {
                    Some(m) => m,
                    None => "llama3.2"@,
                },
                base_url: first_text(opt_view(env.ollama_base_url), opt_view(cfg.ollama_base_url)),
                request_timeout_secs: timeout_of(cfg, env),
                num_ctx: window_of(cfg, env),
            },
        )
    } else if provider == "openai-compat"@ {
        match first_text(
            opt_view(env.openai_compat_base_url),
            opt_view(cfg.openai_compat_base_url),
        ) {
            None => Err(
                "set MINDER_OPENAI_COMPAT_BASE_URL (e.g. http://localhost:8080/v1 for llama-server, http://localhost:1234/v1 for LM Studio)"@,
            ),
            Some(base_url) => match model {
                None => Err("set MINDER_MODEL -- openai-compat has no built-in default"@),
                Some(m) => Ok(
                    ChoiceView::OpenAiCompat {
                        base_url,
                        model: m,
                        api_key: opt_view(env.openai_compat_api_key),
                        request_timeout_secs: timeout_of(cfg, env),
                    },
                ),
            },
        }
    } else {
        Err("unknown provider '"@ + provider + "' (expected ollama or openai-compat)"@)
    }
}

/// The view of a result.
pub open spec fn result_view(r: Result<ProviderChoice, String>) -> Result<ChoiceView, Seq<char>> {
    match r {
        Ok(c) => Ok(c@),
        Err(e) => Err(e@),
    }
}

/// The provider of a name, or why there is none.
pub fn build_provider(
    provider: &str,
    model_override: Option<String>,
    cfg: &ProjectConfig,
    env: &ProviderEnv,
) -> (r: Result<ProviderChoice, String>)
    ensures
        result_view(r) == chosen_provider(provider@, opt_view(model_override), *cfg, *env),
{
    let request_timeout_secs: Option<u64> = number_setting(
        &env.request_timeout_secs,
        cfg.request_timeout_secs,
        u64::MAX,
    );
    let file_window: Option<u64> = match cfg.num_ctx {
        Some(n) => Some(n as u64),
        None => None,
    };
    let num_ctx: Option<u32> = match number_setting(&env.num_ctx, file_window, u32::MAX as u64) {
        Some(n) => Some(n as u32),
        None => None,
    };
    if same(provider, "ollama") {
        let model = match model_override {
            Some(m) => m,
            None => "llama3.2".to_owned(),
        };
        let base_url = text_setting(&env.ollama_base_url, &cfg.ollama_base_url);
        return Ok(ProviderChoice::Ollama { model, base_url, request_timeout_secs, num_ctx });
    }
    if same(provider, "openai-compat") {
        let base_url = match text_setting(
            &env.openai_compat_base_url,
            &cfg.openai_compat_base_url,
        ) {
            Some(u) => u,
            None => {
                return Err(
                    "set MINDER_OPENAI_COMPAT_BASE_URL (e.g. http://localhost:8080/v1 for llama-server, http://localhost:1234/v1 for LM Studio)".to_owned(),
                );
            },
        };
        let model = match model_override {
            Some(m) => m,
            None => {
                return Err(
                    "set MINDER_MODEL -- openai-compat has no built-in default".to_owned(),
                );
            },
        };
        return Ok(
            ProviderChoice::OpenAiCompat {
                base_url,
                model,
                api_key: copy_option(&env.openai_compat_api_key),
                request_timeout_secs,
            },
        );
    }
    let mut e = "unknown provider '".to_owned();
    e.append(provider);
    e.append("' (expected ollama or openai-compat)");
    Err(e)
}

/// The name of the provider for the main session.
pub open spec fn selected_name(cfg: ProjectConfig, env: ProviderEnv) -> Seq<char> {
    match first_text(opt_view(env.provider), opt_view(cfg.provider)) {
        Some(p) => p,
        None => "ollama"@,
    }
}

/// What is chosen for the main session.
pub open spec fn main_choice(cfg: ProjectConfig, env: ProviderEnv) -> Result<
    ChoiceView,
    Seq<char>,
> {
    chosen_provider(
        selected_name(cfg, env),
        first_text(opt_view(env.model), opt_view(cfg.model)),
        cfg,
        env,
    )
}

/// The provider for the main session: the environment comes before the file,
/// and the file before the default.
pub fn select_provider(cfg: &ProjectConfig, env: &ProviderEnv) -> (r: Result<
    ProviderChoice,
    String,
>)
    ensures
        result_view(r) == main_choice(*cfg, *env),
{
    let provider = match text_setting(&env.provider, &cfg.provider) {
        Some(p) => p,
        None => "ollama".to_owned(),
    };
    let model = text_setting(&env.model, &cfg.model);
    build_provider(provider.as_str(), model, cfg, env)
}

impl ProviderChoice {
    /// The name of the provider.
    pub fn id(&self) -> (r: &'static str)
        ensures
            r@ == (match self {
                ProviderChoice::Ollama { .. } => "ollama"@,
                ProviderChoice::OpenAiCompat { .. } => "openai-compat"@,
            }),
    {
        match self {
            ProviderChoice::Ollama { .. } => "ollama",
            ProviderChoice::OpenAiCompat { .. } => "openai-compat",
        }
    }

    /// The model.
    pub fn model(&self) -> (r: &str)
        ensures
            r@ == (match self@ {
                ChoiceView::Ollama { model, .. } => model,
                ChoiceView::OpenAiCompat { model, .. } => model,
            }),
    {
        match self {
            ProviderChoice::Ollama { model, .. } => model.as_str(),
            ProviderChoice::OpenAiCompat { model, .. } => model.as_str(),
        }
    }
}

/// The environment sets a number: it says one that is not too large.
pub open spec fn says_number(env: Option<String>, max: nat) -> bool {
    env matches Some(s) && crate::text::number(s@, max) is Some
}

/// What the environment sets is what counts, whatever the file says: two files
/// that agree on what the environment does not set lead to the same provider.
pub proof fn law_environment_comes_first(
    cfg: ProjectConfig,
    other: ProjectConfig,
    env: ProviderEnv,
)
    requires
        env.provider is Some || opt_view(cfg.provider) == opt_view(other.provider),
        env.model is Some || opt_view(cfg.model) == opt_view(other.model),
        env.ollama_base_url is Some || opt_view(cfg.ollama_base_url) == opt_view(
            other.ollama_base_url,
        ),
        env.openai_compat_base_url is Some || opt_view(cfg.openai_compat_base_url) == opt_view(
            other.openai_compat_base_url,
        ),
        says_number(env.request_timeout_secs, u64::MAX as nat) || cfg.request_timeout_secs
            == other.request_timeout_secs,
        says_number(env.num_ctx, u32::MAX as nat) || cfg.num_ctx == other.num_ctx,
    ensures
        main_choice(cfg, env) == main_choice(other, env),
{
}

} // verus!
