//! The OpenAI-compatible embedding endpoint: its validated settings and
//! the request it is sent.
use crate::chunking::types::lit;
use crate::text::{chars_of, is_blank, is_blank_str, push_str, string_from_range};
use vstd::prelude::*;

verus! {

/// Length of `s[..i]` without trailing slashes.
pub open spec fn without_trailing_slashes(s: Seq<char>, i: int) -> int
    decreases i,
{
    if i <= 0 || i > s.len() {
        0
    } else if s[i - 1] == '/' {
        without_trailing_slashes(s, i - 1)
    } else {
        i
    }
}

/// The settings of an embedding endpoint; the base URL is kept without
/// trailing slashes.
#[derive(Debug, Clone, PartialEq, Eq)]
pub struct OpenAiCompatibleEmbeddings {
    base_url: String,
    model: String,
    api_key_env: String,
    dimensions: usize,
}

pub open spec fn trimmed_url(base_url: Seq<char>) -> Seq<char> {
    base_url.take(without_trailing_slashes(base_url, base_url.len() as int))
}

/// Why the settings are refused, checked in this order: an empty base URL
/// (once trailing slashes are gone), a blank model, a blank key variable,
/// zero dimensions.
pub open spec fn embedding_settings_error(base_url: Seq<char>, model: Seq<char>, api_key_env: Seq<char>, dimensions: usize) -> Option<Seq<char>> {
    if trimmed_url(base_url).len() == 0 {
        Some("base_url must not be empty"@)
    } else if is_blank(model) {
        Some("model must not be empty"@)
    } else if is_blank(api_key_env) {
        Some("api_key_env must not be empty"@)
    } else if dimensions == 0 {
        Some("dimensions must be greater than zero"@)
    } else {
        None
    }
}

impl OpenAiCompatibleEmbeddings {
    pub closed spec fn url(&self) -> Seq<char> {
        self.base_url@
    }

    pub closed spec fn model_name(&self) -> Seq<char> {
        self.model@
    }

    pub closed spec fn key_variable(&self) -> Seq<char> {
        self.api_key_env@
    }

    pub closed spec fn size(&self) -> usize {
        self.dimensions
    }

    pub fn new(base_url: &str, model: &str, api_key_env: &str, dimensions: usize) -> (r: Result<Self, String>)
        ensures
            match embedding_settings_error(base_url@, model@, api_key_env@, dimensions) {
                Some(e) => r is Err && r->Err_0@ == e,
                None => r is Ok && r->Ok_0.url() == trimmed_url(base_url@) && r->Ok_0.model_name() == model@
                    && r->Ok_0.key_variable() == api_key_env@ && r->Ok_0.size() == dimensions,
            },
    {
        let cs = chars_of(base_url);
        let mut n = cs.len();
        while n > 0 && cs[n - 1] == '/'
            invariant
                n <= cs@.len(),
                cs@ == base_url@,
                without_trailing_slashes(base_url@, base_url@.len() as int) == without_trailing_slashes(base_url@, n as int),
            decreases n,
        {
            n = n - 1;
        }
        let url = string_from_range(cs.as_slice(), 0, n);
        assert(url@ =~= trimmed_url(base_url@));
        if n == 0 {
            return Err(lit("base_url must not be empty"));
        }
        if is_blank_str(model) {
            return Err(lit("model must not be empty"));
        }
        if is_blank_str(api_key_env) {
            return Err(lit("api_key_env must not be empty"));
        }
        if dimensions == 0 {
            return Err(lit("dimensions must be greater than zero"));
        }
        Ok(OpenAiCompatibleEmbeddings { base_url: url, model: lit(model), api_key_env: lit(api_key_env), dimensions })
    }

    /// Where embedding requests are posted: `<base_url>/embeddings`.
    pub fn endpoint(&self) -> (r: String)
        ensures
            r@ == self.url() + "/embeddings"@,
    {
        let mut r = self.base_url.clone();
        push_str(&mut r, "/embeddings");
        r
    }

    /// The `Authorization` header for an API token.
    pub fn authorization(&self, token: &str) -> (r: String)
        ensures
            r@ == "Bearer "@ + token@,
    {
        let mut r = lit("Bearer ");
        push_str(&mut r, token);
        r
    }

    pub fn model(&self) -> (r: &str)
        ensures
            r@ == self.model_name(),
    {
        self.model.as_str()
    }

    pub fn api_key_env(&self) -> (r: &str)
        ensures
            r@ == self.key_variable(),
    {
        self.api_key_env.as_str()
    }

    pub fn dimensions(&self) -> (r: usize)
        ensures
            r == self.size(),
    {
        self.dimensions
    }

    /// The message when the API key variable is not set.
    pub fn missing_key_message(&self) -> (r: String)
        ensures
            r@ == "missing environment variable "@ + self.key_variable(),
    {
        let mut r = lit("missing environment variable ");
        push_str(&mut r, self.api_key_env.as_str());
        r
    }
}

} // verus!
