//! Which embedding backend the server builds from its `[embedder]` settings.
use vstd::prelude::*;
use crate::text::str_eq;

verus! {

/// Dimensionality of the default embedding model (all-MiniLM-L6-v2).
pub const EMBEDDING_DIMS: usize = 384;

/// Dimensionality of the embedding model, used to size the server's global
/// vector stores so stored and query vectors are comparable.
pub fn embedder_dimension() -> (d: usize)
    ensures
        d == EMBEDDING_DIMS,
{
    EMBEDDING_DIMS
}

/// Embedding backend to build.
#[derive(Debug, Clone, Copy, PartialEq, Eq, Structural)]
pub enum EmbedderBackend {
    /// A local Ollama daemon.
    Ollama,
    /// The native MiniLM checkpoint in the configured model directory.
    Minilm,
    /// The weight-free lightweight embedder.
    Lightweight,
    /// The hash fallback: keeps the pipeline running without semantic search.
    Hash,
}

/// The backend the configured `kind` selects. Without a configured kind the
/// MiniLM checkpoint is used when its weights are present (`weights_present`:
/// a model directory is configured and holds `model.safetensors`), and the
/// hash fallback otherwise; an explicit `minilm` also needs the weights; an
/// unknown kind falls back to hashing.
pub fn embedder_backend(kind: Option<&str>, weights_present: bool) -> (b: EmbedderBackend)
    ensures
        b == match kind {
            None => if weights_present { EmbedderBackend::Minilm } else { EmbedderBackend::Hash },
            Some(k) => if k@ == seq!['o', 'l', 'l', 'a', 'm', 'a'] {
                EmbedderBackend::Ollama
            } else if k@ == seq!['m', 'i', 'n', 'i', 'l', 'm'] {
                if weights_present { EmbedderBackend::Minilm } else { EmbedderBackend::Hash }
            } else if k@ == seq!['l', 'i', 'g', 'h', 't', 'w', 'e', 'i', 'g', 'h', 't'] {
                EmbedderBackend::Lightweight
            } else {
                EmbedderBackend::Hash
            },
        },
{
    proof {
        reveal_strlit("ollama");
        reveal_strlit("minilm");
        reveal_strlit("lightweight");
        assert("ollama"@ =~= seq!['o', 'l', 'l', 'a', 'm', 'a']);
        assert("minilm"@ =~= seq!['m', 'i', 'n', 'i', 'l', 'm']);
        assert("lightweight"@ =~= seq!['l', 'i', 'g', 'h', 't', 'w', 'e', 'i', 'g', 'h', 't']);
    }
    match kind {
        None => if weights_present { EmbedderBackend::Minilm } else { EmbedderBackend::Hash },
        Some(k) => {
            if str_eq(k, "ollama") {
                EmbedderBackend::Ollama
            } else if str_eq(k, "minilm") {
                if weights_present { EmbedderBackend::Minilm } else { EmbedderBackend::Hash }
            } else if str_eq(k, "lightweight") {
                EmbedderBackend::Lightweight
            } else {
                EmbedderBackend::Hash
            }
        }
    }
}

} // verus!
