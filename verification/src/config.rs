//! Configuration of a federated graph: interned strings, subgraph headers and limits.
use vstd::prelude::*;

verus! {

/// Limits on the operations that the engine accepts; `None` means no limit.
pub struct OperationLimits {
    pub depth: Option<u16>,
    pub height: Option<u16>,
    pub aliases: Option<u16>,
    pub root_fields: Option<u16>,
    pub complexity: Option<u16>,
}

impl Default for OperationLimits {
    fn default() -> (limits: OperationLimits)
        ensures
            limits.depth is None,
            limits.height is None,
            limits.aliases is None,
            limits.root_fields is None,
            limits.complexity is None,
    {
        OperationLimits { depth: None, height: None, aliases: None, root_fields: None, complexity: None }
    }
}

/// The index of a string in `Config::strings`.
#[derive(Clone, Copy, Debug, Hash, PartialEq, Eq, Structural, PartialOrd, Ord)]
pub struct StringId(pub usize);

/// The index of a header in `Config::headers`.
#[derive(Clone, Copy, Debug)]
pub struct HeaderId(pub usize);

/// The value that should be sent for a given header.
pub enum HeaderValue {
    /// The given header from the current request should be forwarded to the subgraph.
    Forward(StringId),
    /// The given string should always be sent.
    Static(StringId),
}

/// A header that should be sent to a subgraph.
pub struct Header {
    pub name: StringId,
    pub value: HeaderValue,
}

/// Additional configuration for a particular subgraph.
pub struct SubgraphConfig {
    pub websocket_url: Option<StringId>,
    pub headers: Vec<HeaderId>,
}

/// Configuration for a federated graph: the parts of it that strings and headers are
/// looked up in, with the subgraph configurations keyed by subgraph index.
pub struct Config {
    pub strings: Vec<String>,
    pub headers: Vec<Header>,
    /// Default headers that should be sent to every subgraph.
    pub default_headers: Vec<HeaderId>,
    /// Additional configuration for our subgraphs.
    pub subgraph_configs: std::collections::BTreeMap<usize, SubgraphConfig>,
    pub operation_limits: OperationLimits,
}

impl Config {
    /// The string that `id` refers to.
    pub fn string(&self, id: StringId) -> (s: &String)
        requires
            id.0 < self.strings@.len(),
        ensures
            *s == self.strings@[id.0 as int],
    {
        &self.strings[id.0]
    }

    /// The header that `id` refers to.
    pub fn header(&self, id: HeaderId) -> (h: &Header)
        requires
            id.0 < self.headers@.len(),
        ensures
            *h == self.headers@[id.0 as int],
    {
        &self.headers[id.0]
    }
}

} // verus!
