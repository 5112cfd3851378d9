use vstd::prelude::*;

use std::collections::HashMap;

use crate::module::Module;
use crate::sync_hook::SyncHook;

verus! {

/// The options of a build.
pub struct RspackOptions {
    pub mode: Option<String>,
    pub devtool: Option<bool>,
    pub watch: Option<bool>,
    pub context: Option<String>,
    pub entry: EntryOptions,
    pub output: OutputOptions,
    pub resolve: Option<ResolveOptions>,
    pub module: Option<ModuleOptions>,
    pub plugins: Option<Vec<String>>,
}

/// The entry points, by name.
pub struct EntryOptions {
    pub entries: HashMap<String, String>,
}

/// Where the bundle is written.
pub struct OutputOptions {
    pub path: String,
    pub filename: String,
}

/// How module requests are resolved.
pub struct ResolveOptions {
    pub extensions: Option<Vec<String>>,
}

/// The module rules.
pub struct ModuleOptions {
    pub rules: Option<Vec<RuleOptions>>,
}

/// A rule: modules whose path ends with `test` go through the loaders in
/// `use_`.
pub struct RuleOptions {
    pub test: String,
    pub use_: Vec<String>,
}

/// A named group of modules with its entry module.
pub struct Chunk {
    pub name: String,
    pub entry_module: Module,
    pub modules: Vec<Module>,
}

/// The hooks of a compilation.
pub struct CompilationHooks {
    pub emit: SyncHook,
}

/// What a build produced.
pub struct Stats {
    pub entries: Vec<String>,
    pub chunks: Vec<String>,
    pub modules: Vec<String>,
    pub files: Vec<String>,
    pub assets: Vec<String>,
}

} // verus!
