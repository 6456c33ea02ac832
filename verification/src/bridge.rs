//! Opening the memory store: the embedding backend and its settings.
use crate::text::{ascii_lowered, cat3, same_text, to_lowercase, unicode_lowered};
use vstd::prelude::*;

verus! {

/// Which embedding backend to use.
#[derive(Clone, Copy, Debug, PartialEq, Eq, Structural)]
pub enum EmbedderBackend {
    /// In-process Candle embedder (CPU only, no Ollama required).
    Candle,
    /// External Ollama server.
    Ollama,
    /// Deterministic mock embedder for testing.
    Mock,
}

impl Default for EmbedderBackend {
    fn default() -> (backend: EmbedderBackend)
        ensures
            backend == EmbedderBackend::Candle,
    {
        EmbedderBackend::Candle
    }
}

impl EmbedderBackend {
    /// The name of the backend on the command line.
    pub open spec fn name_text(self) -> Seq<char> {
        match self {
            EmbedderBackend::Candle => "candle"@,
            EmbedderBackend::Ollama => "ollama"@,
            EmbedderBackend::Mock => "mock"@,
        }
    }

    /// The backend called `name`, in any letter case.
    pub fn from_name(name: &str) -> (r: Result<EmbedderBackend, String>)
        ensures
            vstd::utf8::is_ascii_chars(name@) ==> unicode_lowered(name@) == ascii_lowered(name@),
            (match r {
                Ok(backend) => backend.name_text() == unicode_lowered(name@),
                Err(message) => {
                    &&& forall|b: EmbedderBackend| (#[trigger] b.name_text()) != unicode_lowered(name@)
                    &&& message@ == "unknown embedder '"@ + unicode_lowered(name@)
                        + "', expected: candle, ollama, or mock"@
                },
            }),
    {
        EmbedderBackend::from_lowered(&to_lowercase(name))
    }

    /// The backend whose name is exactly `name`.
    pub fn from_lowered(name: &str) -> (r: Result<EmbedderBackend, String>)
        ensures
            (match r {
                Ok(backend) => backend.name_text() == name@,
                Err(message) => {
                    &&& forall|b: EmbedderBackend| (#[trigger] b.name_text()) != name@
                    &&& message@ == "unknown embedder '"@ + name@
                        + "', expected: candle, ollama, or mock"@
                },
            }),
    {
        if same_text(name, "candle") {
            Ok(EmbedderBackend::Candle)
        } else if same_text(name, "ollama") {
            Ok(EmbedderBackend::Ollama)
        } else if same_text(name, "mock") {
            Ok(EmbedderBackend::Mock)
        } else {
            Err(cat3("unknown embedder '", name, "', expected: candle, ollama, or mock"))
        }
    }
}

impl std::str::FromStr for EmbedderBackend {
    type Err = String;

    fn from_str(s: &str) -> (r: Result<EmbedderBackend, String>)
        ensures
            (match r {
                Ok(backend) => backend.name_text() == unicode_lowered(s@),
                Err(message) => {
                    &&& forall|b: EmbedderBackend| (#[trigger] b.name_text()) != unicode_lowered(s@)
                    &&& message@ == "unknown embedder '"@ + unicode_lowered(s@)
                        + "', expected: candle, ollama, or mock"@
                },
            }),
    {
        EmbedderBackend::from_name(s)
    }
}

/// How to open the memory store.
#[derive(Clone)]
pub struct BridgeConfig {
    /// The directory of the store; the database file lies inside it.
    pub memory_dir: String,
    pub embedder_backend: EmbedderBackend,
    /// Ollama URL, used when the backend is Ollama.
    pub embedding_url: String,
    /// Embedding model name.
    pub embedding_model: String,
    pub embedding_dims: usize,
    /// Whether compressed vectors propose the search candidates.
    pub turbo_quant_enabled: bool,
    pub turbo_quant_bits: Option<u8>,
    pub turbo_quant_projections: Option<usize>,
}

/// The text of an optional argument, or a default.
pub open spec fn text_or(value: Option<&str>, default: Seq<char>) -> Seq<char> {
    match value {
        Some(s) => s@,
        None => default,
    }
}

impl BridgeConfig {
    /// The configuration that the command line gives, with its defaults.
    pub fn from_args(
        memory_dir: &str,
        embedder_backend: EmbedderBackend,
        embedding_url: Option<&str>,
        embedding_model: Option<&str>,
        embedding_dims: Option<usize>,
        turbo_quant_enabled: bool,
        turbo_quant_bits: Option<u8>,
        turbo_quant_projections: Option<usize>,
    ) -> (config: BridgeConfig)
        ensures
            config.memory_dir@ == memory_dir@,
            config.embedder_backend == embedder_backend,
            config.embedding_url@ == text_or(embedding_url, "http://localhost:11434"@),
            config.embedding_model@ == text_or(embedding_model, "nomic-embed-text"@),
            config.embedding_dims == (match embedding_dims {
                Some(n) => n,
                None => 768,
            }),
            config.turbo_quant_enabled == turbo_quant_enabled,
            config.turbo_quant_bits == turbo_quant_bits,
            config.turbo_quant_projections == turbo_quant_projections,
    {
        BridgeConfig {
            memory_dir: memory_dir.to_owned(),
            embedder_backend,
            embedding_url: match embedding_url {
                Some(s) => s.to_owned(),
                None => "http://localhost:11434".to_owned(),
            },
            embedding_model: match embedding_model {
                Some(s) => s.to_owned(),
                None => "nomic-embed-text".to_owned(),
            },
            embedding_dims: match embedding_dims {
                Some(n) => n,
                None => 768,
            },
            turbo_quant_enabled,
            turbo_quant_bits,
            turbo_quant_projections,
        }
    }

    /// The settings with which the embedder is built.
    pub fn embedding_settings(&self) -> (settings: EmbeddingSettings)
        ensures
            settings.ollama_url@ == self.embedding_url@,
            settings.model@ == embedder_model(self.embedder_backend, self.embedding_model@),
            settings.dimensions == self.embedding_dims,
            settings.batch_size == 32,
            settings.timeout_secs == 60,
    {
        EmbeddingSettings {
            ollama_url: self.embedding_url.clone(),
            model: match self.embedder_backend {
                EmbedderBackend::Candle => if same_text(&self.embedding_model, "nomic-embed-text")
                    || same_text(&self.embedding_model, "nomic-embed-text-v1.5") {
                    "nomic-ai/nomic-embed-text-v1.5".to_owned()
                } else {
                    self.embedding_model.clone()
                },
                _ => self.embedding_model.clone(),
            },
            dimensions: self.embedding_dims,
            batch_size: 32,
            timeout_secs: 60,
        }
    }

    /// The candidate backend to search with, given the store's default number
    /// of bits and projections: the compressed one with the configured values
    /// where it is enabled, else the default.
    pub fn candidate_settings(&self, default_bits: u8, default_projections: usize) -> (r: (
        bool,
        u8,
        usize,
    ))
        ensures
            r.0 == self.turbo_quant_enabled,
            r.1 == (if self.turbo_quant_enabled && self.turbo_quant_bits is Some {
                self.turbo_quant_bits->0
            } else {
                default_bits
            }),
            r.2 == (if self.turbo_quant_enabled && self.turbo_quant_projections is Some {
                self.turbo_quant_projections->0
            } else {
                default_projections
            }),
    {
        if !self.turbo_quant_enabled {
            return (false, default_bits, default_projections);
        }
        let bits = match self.turbo_quant_bits {
            Some(bits) => bits,
            None => default_bits,
        };
        let projections = match self.turbo_quant_projections {
            Some(projections) => projections,
            None => default_projections,
        };
        (true, bits, projections)
    }
}

/// The settings of an embedder.
pub struct EmbeddingSettings {
    pub ollama_url: String,
    pub model: String,
    pub dimensions: usize,
    pub batch_size: usize,
    pub timeout_secs: u64,
}

/// The model that a backend loads: Candle loads models by their repository, and
/// knows the short names of the default one.
pub open spec fn embedder_model(backend: EmbedderBackend, model: Seq<char>) -> Seq<char> {
    if backend == EmbedderBackend::Candle && (model == "nomic-embed-text"@ || model
        == "nomic-embed-text-v1.5"@) {
        "nomic-ai/nomic-embed-text-v1.5"@
    } else {
        model
    }
}

}
