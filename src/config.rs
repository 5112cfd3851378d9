use vstd::prelude::*;

verus! {

/// Where the bundle is written: a directory and a file name.
pub struct Output {
    pub path: String,
    pub filename: String,
}

/// The configuration of a compiler.
pub struct Config {
    pub root: String,
    pub entry: String,
    pub output: Output,
}

impl Config {
    pub fn new(root: String, entry: String, output: Output) -> (r: Config)
        ensures
            r.root == root,
            r.entry == entry,
            r.output == output,
    {
        Config { root, entry, output }
    }

    /// The configuration that the host handed over; every such value is
    /// accepted.
    pub fn try_from_raw(raw: RawConfig) -> (r: Result<Config, ()>)
        ensures
            r matches Ok(c) && c.root == raw.root && c.entry == raw.entry && c.output.path
                == raw.output.path && c.output.filename == raw.output.filename,
    {
        match Output::try_from_raw(raw.output) {
            Ok(output) => Ok(Config { root: raw.root, entry: raw.entry, output }),
            Err(e) => Err(e),
        }
    }
}

impl Output {
    /// The output settings that the host handed over; every such value is
    /// accepted.
    pub fn try_from_raw(raw: RawOutput) -> (r: Result<Output, ()>)
        ensures
            r matches Ok(o) && o.path == raw.path && o.filename == raw.filename,
    {
        Ok(Output { path: raw.path, filename: raw.filename })
    }
}

/// Output settings as the host writes them.
pub struct RawOutput {
    pub path: String,
    pub filename: String,
}

/// A configuration as the host writes it.
pub struct RawConfig {
    pub root: String,
    pub entry: String,
    pub output: RawOutput,
}

} // verus!
