//! Runtime configuration for compilation and the assistant, resolved from
//! CLI args, the environment and defaults.
use vstd::prelude::*;

use std::time::Duration;

verus! {

/// What `Duration::from_secs` gives for a number of seconds.
pub uninterp spec fn duration_of_secs(secs: u64) -> Duration;

/// `Duration` is `Copy`: its `clone` returns the same span.
pub assume_specification[ <Duration as Clone>::clone ](d: &Duration) -> (r: Duration)
    ensures
        r == *d,
;

/// `Duration::from_secs`: a span of `secs` whole seconds (it cannot fail or
/// panic for any `u64`).
#[verifier::external_body]
fn duration_from_secs(secs: u64) -> (d: Duration)
    ensures
        d == duration_of_secs(secs),
{
    Duration::from_secs(secs)
}

#[derive(Debug, Clone)]
pub struct Config {
    /// TeX Live image to run compilations in.
    pub texlive_image: String,
    /// TeX engine binary (pdflatex / xelatex / lualatex).
    pub engine: String,
    /// Hard wall-clock timeout for a whole compile.
    pub timeout: Duration,
    /// Container memory limit, in bytes.
    pub memory_bytes: i64,
    /// Ollama model for the AI assistant.
    pub ai_model: String,
    /// Ollama host (loopback HTTP).
    pub ollama_host: String,
    /// Remove LaTeX auxiliary files after a successful compile (keep the PDF).
    pub clean_artifacts: bool,
}

impl Config {
    #[allow(clippy::too_many_arguments)]
    pub fn from_cli(
        texlive_image: String,
        engine: String,
        timeout_secs: u64,
        memory_bytes: i64,
        ai_model: String,
        ollama_host: String,
        clean_artifacts: bool,
    ) -> (c: Self)
        ensures
            c.texlive_image == texlive_image,
            c.engine == engine,
            c.timeout == duration_of_secs(timeout_secs),
            c.memory_bytes == memory_bytes,
            c.ai_model == ai_model,
            c.ollama_host == ollama_host,
            c.clean_artifacts == clean_artifacts,
    {
        Self {
            texlive_image,
            engine,
            timeout: duration_from_secs(timeout_secs),
            memory_bytes,
            ai_model,
            ollama_host,
            clean_artifacts,
        }
    }
}

} // verus!
