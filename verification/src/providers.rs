//! Language-model providers: which one a configuration selects, and the
//! local, evidence-bound completion used when none is configured.
use vstd::prelude::*;
use crate::text::{copy_string, eq_str, opt_view, owned, push_char, push_str, str_chars};

verus! {

/// One message of a conversation with a model.
#[derive(Debug, Clone)]
pub struct AiMessage {
    pub role: String,
    pub content: String,
}

/// Which model provider to use and how to reach it.
#[derive(Debug, Clone)]
pub struct ProviderConfig {
    pub provider: String,
    pub model: String,
    pub api_key: Option<String>,
    pub base_url: Option<String>,
}

/// The provider that a configuration selects.
#[derive(Debug, Clone)]
pub enum ProviderChoice {
    /// The local engine, which answers from the evidence alone.
    Local,
    /// An OpenAI-compatible chat-completions endpoint.
    OpenAiCompatible { api_key: String, base_url: String, model: String },
}

pub enum ProviderChoiceView {
    Local,
    OpenAiCompatible { api_key: Seq<char>, base_url: Seq<char>, model: Seq<char> },
}

impl View for ProviderChoice {
    type V = ProviderChoiceView;

    open spec fn view(&self) -> ProviderChoiceView {
        match self {
            ProviderChoice::Local => ProviderChoiceView::Local,
            ProviderChoice::OpenAiCompatible { api_key, base_url, model } => ProviderChoiceView::OpenAiCompatible {
                api_key: api_key@,
                base_url: base_url@,
                model: model@,
            },
        }
    }
}

/// The providers reached through an OpenAI-compatible endpoint.
pub open spec fn is_remote_provider(p: Seq<char>) -> bool {
    p == "openai"@ || p == "openrouter"@ || p == "ollama"@ || p == "gemini"@
}

/// The default endpoint of a remote provider.
pub open spec fn default_base_url(p: Seq<char>) -> Seq<char> {
    if p == "openrouter"@ {
        "https://openrouter.ai/api/v1"@
    } else if p == "ollama"@ {
        "http://127.0.0.1:11434/v1"@
    } else if p == "gemini"@ {
        "https://generativelanguage.googleapis.com/v1beta/openai"@
    } else {
        "https://api.openai.com/v1"@
    }
}

/// The provider a configuration selects: a remote provider with an API key
/// is reached at its base URL (or its default one); anything else is local.
pub open spec fn spec_build_provider(provider: Seq<char>, model: Seq<char>, api_key: Option<Seq<char>>, base_url: Option<Seq<char>>) -> ProviderChoiceView {
    if is_remote_provider(provider) && api_key is Some {
        ProviderChoiceView::OpenAiCompatible {
            api_key: api_key.unwrap(),
            base_url: match base_url {
                Some(b) => b,
                None => default_base_url(provider),
            },
            model,
        }
    } else {
        ProviderChoiceView::Local
    }
}

fn default_base_url_exec(p: &[char]) -> (r: &'static str)
    ensures
        r@ == default_base_url(p@),
{
    if eq_str(p, "openrouter") {
        "https://openrouter.ai/api/v1"
    } else if eq_str(p, "ollama") {
        "http://127.0.0.1:11434/v1"
    } else if eq_str(p, "gemini") {
        "https://generativelanguage.googleapis.com/v1beta/openai"
    } else {
        "https://api.openai.com/v1"
    }
}

/// Selects the provider for a configuration: OpenAI, OpenRouter, Ollama
/// and Gemini go through an OpenAI-compatible endpoint when an API
/// key is set; everything else uses the local engine.
pub fn build_provider(cfg: &ProviderConfig) -> (r: ProviderChoice)
    ensures
        r@ == spec_build_provider(cfg.provider@, cfg.model@, opt_view(cfg.api_key), opt_view(cfg.base_url)),
{
    let pc = str_chars(cfg.provider.as_str());
    let p = pc.as_slice();
    if eq_str(p, "openai") || eq_str(p, "openrouter") || eq_str(p, "ollama") || eq_str(p, "gemini") {
        match &cfg.api_key {
            Some(key) => {
                let base = match &cfg.base_url {
                    Some(b) => copy_string(b),
                    None => owned(default_base_url_exec(p)),
                };
                ProviderChoice::OpenAiCompatible {
                    api_key: copy_string(key),
                    base_url: base,
                    model: copy_string(&cfg.model),
                }
            },
            None => ProviderChoice::Local,
        }
    } else {
        ProviderChoice::Local
    }
}

/// The content of the last message from the user, or nothing.
pub open spec fn last_user_content(ms: Seq<(Seq<char>, Seq<char>)>) -> Seq<char>
    decreases ms.len(),
{
    if ms.len() == 0 {
        seq![]
    } else if ms.last().0 == "user"@ {
        ms.last().1
    } else {
        last_user_content(ms.drop_last())
    }
}

pub open spec fn message_views(ms: Seq<AiMessage>) -> Seq<(Seq<char>, Seq<char>)> {
    ms.map_values(|m: AiMessage| (m.role@, m.content@))
}

/// What the local engine answers: a fixed heading and the first 4000
/// characters of the last user message.
pub open spec fn spec_local_complete(ms: Seq<(Seq<char>, Seq<char>)>) -> Seq<char> {
    let u = last_user_content(ms);
    "Local evidence-bound response (no external model configured).\n\n"@ + (if u.len() > 4000 {
        u.take(4000)
    } else {
        u
    })
}

fn last_user_chars(messages: &[AiMessage]) -> (r: Vec<char>)
    ensures
        r@ == last_user_content(message_views(messages@)),
{
    let ghost ms = message_views(messages@);
    let mut k = messages.len();
    proof {
        assert(ms.subrange(0, messages@.len() as int) =~= ms);
    }
    while k > 0
        invariant
            ms == message_views(messages@),
            k <= messages@.len(),
            last_user_content(ms) == last_user_content(ms.subrange(0, k as int)),
        decreases k,
    {
        let role = str_chars(messages[k - 1].role.as_str());
        proof {
            let pre = ms.subrange(0, k as int);
            assert(pre.drop_last() =~= ms.subrange(0, k - 1));
            assert(pre.last() == (messages@[k - 1].role@, messages@[k - 1].content@));
        }
        if eq_str(role.as_slice(), "user") {
            return str_chars(messages[k - 1].content.as_str());
        }
        k -= 1;
    }
    proof {
        assert(ms.subrange(0, 0) =~= Seq::<(Seq<char>, Seq<char>)>::empty());
    }
    Vec::new()
}

/// The local engine's answer to a conversation (no model is consulted).
pub fn local_complete(messages: &[AiMessage]) -> (r: String)
    ensures
        r@ == spec_local_complete(message_views(messages@)),
{
    let user = last_user_chars(messages);
    let mut out = owned("Local evidence-bound response (no external model configured).\n\n");
    let n = if user.len() > 4000 { 4000 } else { user.len() };
    let mut i: usize = 0;
    while i < n
        invariant
            i <= n,
            n <= user@.len(),
            out@ == "Local evidence-bound response (no external model configured).\n\n"@ + user@.subrange(0, i as int),
        decreases n - i,
    {
        push_char(&mut out, user[i]);
        proof {
            assert(user@.subrange(0, i + 1) =~= user@.subrange(0, i as int).push(user@[i as int]));
        }
        i += 1;
    }
    proof {
        if user@.len() > 4000 {
            assert(user@.subrange(0, 4000) =~= user@.take(4000));
        } else {
            assert(user@.subrange(0, n as int) =~= user@);
        }
    }
    out
}

/// The provider that answers without any model: it echoes the last user
/// message as evidence-bound text.
#[derive(Debug, Clone, Copy)]
pub struct LocalProvider;

/// A language model that completes a conversation; a failure is reported
/// as text.
pub trait LlmProvider {
    fn complete(&self, messages: &[AiMessage]) -> Result<String, String>;
}

impl LlmProvider for LocalProvider {
    /// The local answer, which never fails.
    fn complete(&self, messages: &[AiMessage]) -> (r: Result<String, String>)
        ensures
            r matches Ok(t) && t@ == spec_local_complete(message_views(messages@)),
    {
        Ok(local_complete(messages))
    }
}

} // verus!
