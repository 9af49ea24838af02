use vstd::prelude::*;
use vstd::string::StringExecFns;
use crate::text::{str_eq, chars_of, string_from_chars, spec_trim, trim_chars};

verus! {

/// Where embeddings come from.
#[derive(Debug, Clone)]
pub enum EmbeddingProvider {
    Ollama { base_url: String, model: String },
    OpenAI { base_url: String, api_key: String, model: String },
}

impl Default for EmbeddingProvider {
    /// A local Ollama server with the `nomic-embed-text` model.
    fn default() -> (p: Self)
        ensures
            p matches EmbeddingProvider::Ollama { base_url, model } && base_url@
                == "http://localhost:11434"@ && model@ == "nomic-embed-text"@,
    {
        EmbeddingProvider::Ollama {
            base_url: String::from_str("http://localhost:11434"),
            model: String::from_str("nomic-embed-text"),
        }
    }
}

pub open spec fn provider_model(p: EmbeddingProvider) -> Seq<char> {
    match p {
        EmbeddingProvider::Ollama { model, .. } => model@,
        EmbeddingProvider::OpenAI { model, .. } => model@,
    }
}

impl EmbeddingProvider {
    /// `Ollama(model)` or `OpenAI(model)`.
    pub fn to_display_string(&self) -> (s: String)
        ensures
            s@ == match self {
                EmbeddingProvider::Ollama { model, .. } => "Ollama("@ + model@ + ")"@,
                EmbeddingProvider::OpenAI { model, .. } => "OpenAI("@ + model@ + ")"@,
            },
    {
        match self {
            EmbeddingProvider::Ollama { model, .. } => {
                let s = String::from_str("Ollama(");
                s.concat(model.as_str()).concat(")")
            },
            EmbeddingProvider::OpenAI { model, .. } => {
                let s = String::from_str("OpenAI(");
                s.concat(model.as_str()).concat(")")
            },
        }
    }
}

/// Computes embeddings with a configured provider.
pub struct Embedder {
    provider: EmbeddingProvider,
}

/// The vector size a provider's model produces.
pub open spec fn spec_embedding_dimension(p: EmbeddingProvider) -> nat {
    match p {
        EmbeddingProvider::Ollama { model, .. } => {
            if model@ == "nomic-embed-text"@ {
                768
            } else if model@ == "all-minilm"@ {
                384
            } else if model@ == "mxbai-embed-large"@ || model@ == "snowflake-arctic-embed"@ || model@
                == "bge-m3"@ {
                1024
            } else {
                768
            }
        },
        EmbeddingProvider::OpenAI { model, .. } => {
            if model@ == "text-embedding-3-small"@ {
                1536
            } else if model@ == "text-embedding-3-large"@ {
                3072
            } else {
                1536
            }
        },
    }
}

impl Embedder {
    pub closed spec fn spec_provider(&self) -> EmbeddingProvider {
        self.provider
    }

    pub fn new(provider: EmbeddingProvider) -> (e: Self)
        ensures
            e.spec_provider() == provider,
    {
        Embedder { provider }
    }

    /// The configured provider.
    pub fn provider(&self) -> (p: &EmbeddingProvider)
        ensures
            *p == self.spec_provider(),
    {
        &self.provider
    }

    /// The vector size the configured model produces.
    pub fn embedding_dimension(&self) -> (n: usize)
        ensures
            n == spec_embedding_dimension(self.spec_provider()),
    {
        match &self.provider {
            EmbeddingProvider::Ollama { model, .. } => {
                let m = model.as_str();
                if str_eq(m, "nomic-embed-text") {
                    768
                } else if str_eq(m, "all-minilm") {
                    384
                } else if str_eq(m, "mxbai-embed-large") || str_eq(m, "snowflake-arctic-embed") || str_eq(
                    m,
                    "bge-m3",
                ) {
                    1024
                } else {
                    768
                }
            },
            EmbeddingProvider::OpenAI { model, .. } => {
                let m = model.as_str();
                if str_eq(m, "text-embedding-3-small") {
                    1536
                } else if str_eq(m, "text-embedding-3-large") {
                    3072
                } else if str_eq(m, "text-embedding-ada-002") {
                    1536
                } else {
                    1536
                }
            },
        }
    }
}

/// `s` without trailing `'/'` characters (`trim_end_matches('/')`).
pub open spec fn trim_trailing_slashes(s: Seq<char>) -> Seq<char>
    decreases s.len(),
{
    if s.len() > 0 && s.last() == '/' {
        trim_trailing_slashes(s.drop_last())
    } else {
        s
    }
}

fn without_trailing_slashes(s: &str) -> (r: Vec<char>)
    ensures
        r@ == trim_trailing_slashes(s@),
{
    let mut chars = chars_of(s);
    while chars.len() > 0 && chars[chars.len() - 1] == '/'
        invariant
            trim_trailing_slashes(s@) == trim_trailing_slashes(chars@),
        decreases chars@.len(),
    {
        let ghost before = chars@;
        chars.pop();
        proof {
            assert(chars@ == before.drop_last());
        }
    }
    chars
}

/// The endpoint an embedding request is posted to: the base URL without
/// trailing slashes, then `/api/embed` for Ollama or `/embeddings` for OpenAI.
pub fn embed_request_uri(provider: &EmbeddingProvider) -> (uri: String)
    ensures
        uri@ == match provider {
            EmbeddingProvider::Ollama { base_url, .. } => trim_trailing_slashes(base_url@) + "/api/embed"@,
            EmbeddingProvider::OpenAI { base_url, .. } => trim_trailing_slashes(base_url@) + "/embeddings"@,
        },
{
    match provider {
        EmbeddingProvider::Ollama { base_url, .. } => {
            let base = without_trailing_slashes(base_url.as_str());
            string_from_chars(base.as_slice()).concat("/api/embed")
        },
        EmbeddingProvider::OpenAI { base_url, .. } => {
            let base = without_trailing_slashes(base_url.as_str());
            string_from_chars(base.as_slice()).concat("/embeddings")
        },
    }
}

/// The `Authorization` header value for an API key: `Bearer` and the trimmed key.
pub fn bearer_authorization(api_key: &str) -> (h: String)
    ensures
        h@ == "Bearer "@ + spec_trim(api_key@),
{
    let key = chars_of(api_key);
    let trimmed = trim_chars(key.as_slice());
    String::from_str("Bearer ").concat(string_from_chars(trimmed.as_slice()).as_str())
}

} // verus!
