//! Settings. The program around this crate reads and writes them as a file;
//! here they are plain values, with their defaults.
use vstd::prelude::*;

use crate::paths::{join_path, joined_path, opt_text};

verus! {

/// All settings.
#[derive(Debug)]
pub struct TuxConfig {
    pub backend: BackendConfig,
    pub inference: InferenceConfig,
}

/// A model on this machine, or one behind an OpenAI-compatible service.
#[derive(Debug, Clone, Copy, PartialEq, Eq, Structural)]
pub enum BackendType {
    Local,
    Remote,
}

impl Default for BackendType {
    fn default() -> (r: Self)
        ensures
            r == BackendType::Local,
    {
        BackendType::Local
    }
}

/// Which model answers.
#[derive(Debug)]
pub struct BackendConfig {
    pub kind: BackendType,
    /// The file of a local model.
    pub model_path: Option<String>,
    /// The projection file of a local model that takes images.
    pub mmproj_path: Option<String>,
    /// Where a remote service is.
    pub url: Option<String>,
    /// The name of the model that a remote service is asked for.
    pub model: Option<String>,
    /// The key for a remote service.
    pub api_key: Option<String>,
}

impl Default for BackendConfig {
    /// A local model, of which nothing is said.
    fn default() -> (r: Self)
        ensures
            r.kind == BackendType::Local,
            r.model_path is None,
            r.mmproj_path is None,
            r.url is None,
            r.model is None,
            r.api_key is None,
    {
        BackendConfig {
            kind: BackendType::Local,
            model_path: None,
            mmproj_path: None,
            url: None,
            model: None,
            api_key: None,
        }
    }
}

/// How a local model is run.
#[derive(Debug, Clone, Copy, PartialEq, Eq, Structural)]
pub struct InferenceConfig {
    /// Threads; 0 stands for the number of physical cores.
    pub n_threads: u32,
    /// Size of the context, in tokens.
    pub ctx_size: u32,
    /// Layers that run on the graphics card; 0 for none, 99 for all.
    pub n_gpu_layers: u32,
    /// How many tokens of a prompt are read at a time.
    pub batch_size: u32,
}

impl Default for InferenceConfig {
    fn default() -> (r: Self)
        ensures
            r == (InferenceConfig {
                n_threads: 0,
                ctx_size: 4096,
                n_gpu_layers: 0,
                batch_size: 512,
            }),
    {
        InferenceConfig { n_threads: 0, ctx_size: 4096, n_gpu_layers: 0, batch_size: 512 }
    }
}

impl Default for TuxConfig {
    fn default() -> (r: Self)
        ensures
            r.is_default(),
    {
        TuxConfig { backend: BackendConfig::default(), inference: InferenceConfig::default() }
    }
}

impl TuxConfig {
    /// Whether these are the settings of a user who chose none.
    pub open spec fn is_default(self) -> bool {
        &&& self.backend.kind == BackendType::Local
        &&& self.backend.model_path is None
        &&& self.backend.mmproj_path is None
        &&& self.backend.url is None
        &&& self.backend.model is None
        &&& self.backend.api_key is None
        &&& self.inference == (InferenceConfig {
            n_threads: 0,
            ctx_size: 4096,
            n_gpu_layers: 0,
            batch_size: 512,
        })
    }

    /// The settings that hold, given what the file says: the defaults where
    /// it is not there or cannot be read as settings.
    pub fn load(parsed: Option<TuxConfig>) -> (r: Self)
        ensures
            match parsed {
                Some(c) => r == c,
                None => r.is_default(),
            },
    {
        match parsed {
            Some(c) => c,
            None => TuxConfig::default(),
        }
    }

    /// Where the settings are kept: in the directory for settings, if the
    /// host has one, and in the current directory otherwise.
    pub fn path(config_dir: &Option<String>) -> (r: String)
        ensures
            r@ == match opt_text(*config_dir) {
                Some(dir) => joined_path(dir, "config.toml"@),
                None => "config.toml"@,
            },
    {
        match config_dir {
            Some(dir) => join_path(dir, "config.toml"),
            None => "config.toml".to_string(),
        }
    }
}

/// A user who chose nothing gets a local model of which nothing is said, on
/// all cores, with a context of 4096 tokens, none of it on a graphics card.
pub proof fn defaults_are_local(c: TuxConfig)
    requires
        c.is_default(),
    ensures
        c.backend.kind == BackendType::Local,
        c.backend.model_path is None,
        c.backend.mmproj_path is None,
        c.backend.url is None,
        c.backend.model is None,
        c.backend.api_key is None,
        c.inference.n_threads == 0,
        c.inference.ctx_size == 4096,
        c.inference.n_gpu_layers == 0,
        c.inference.batch_size == 512,
{
}

} // verus!
