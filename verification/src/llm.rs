//! The optional language-model client: which providers exist, what a prompt
//! carries, and how a call can fail. This build carries no provider, so
//! every question goes to the keyword router.

use vstd::prelude::*;

use crate::text::{push_str, push_string, string_of};

verus! {

/// A language-model provider.
#[derive(Debug, Clone, Copy, PartialEq, Eq)]
pub enum ProviderId {
    Anthropic,
}

/// A prompt: the system text, the user's text, and the answer's budget.
#[derive(Debug)]
pub struct PromptInput<'a> {
    pub system: &'a str,
    pub user: &'a str,
    pub max_tokens: u32,
}

/// Why a call to a provider failed.
#[derive(Debug)]
pub enum ProviderError {
    MissingKey(String),
    Network(String),
    Api(String),
}

/// The message a provider error shows.
pub open spec fn provider_error_text(e: ProviderError) -> Seq<char> {
    match e {
        ProviderError::MissingKey(k) => "missing api key in env: "@ + k@,
        ProviderError::Network(m) => "network: "@ + m@,
        ProviderError::Api(m) => "api: "@ + m@,
    }
}

impl ProviderError {
    /// The message this error shows.
    pub fn message(&self) -> (s: String)
        ensures
            s@ == provider_error_text(*self),
    {
        let mut v: Vec<char> = Vec::new();
        match self {
            ProviderError::MissingKey(k) => {
                push_str(&mut v, "missing api key in env: ");
                push_string(&mut v, k);
            },
            ProviderError::Network(m) => {
                push_str(&mut v, "network: ");
                push_string(&mut v, m);
            },
            ProviderError::Api(m) => {
                push_str(&mut v, "api: ");
                push_string(&mut v, m);
            },
        }
        string_of(&v)
    }
}

/// A language model that answers prompts.
pub trait Provider {
    /// Which provider this is.
    fn id(&self) -> ProviderId;

    /// Answers a prompt.
    fn complete(&self, input: PromptInput<'_>) -> Result<String, ProviderError>;
}

/// The configured provider, if this build carries it. This build carries
/// none, so the answer is always `None` and one-shot prompts go to the
/// keyword router.
pub fn resolve(id: ProviderId) -> (r: Option<Box<dyn Provider>>)
    ensures
        r is None,
{
    let _ = id;
    None
}

} // verus!
