use vstd::prelude::*;

verus! {

/// Startup configuration of the proxy. Immutable once loaded.
#[derive(Debug)]
pub struct Cfg {
    /// Local port the proxy listens on.
    pub port: u16,
    /// Directory that holds the static assets.
    pub sourcedata: String,
    /// Directory that holds the help assets.
    pub help: String,
    /// Authority of the upstream (host, optionally with port; no scheme).
    pub host: String,
    /// Selects the grid path layout in place of the default one.
    pub pagrid: bool,
}

} // verus!
