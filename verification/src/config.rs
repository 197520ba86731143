use vstd::prelude::*;

verus! {

/// Bound on nested fragment resolution used by `Configuration::default`.
/// A fragment graph with a cycle would otherwise recurse forever; exceeding
/// the bound is a fatal, reported error.
pub const DEFAULT_MAX_FRAGMENT_DEPTH: u32 = 16;

/// The default namespace prefix (`esi`) that marks directive tags.
pub open spec fn default_namespace() -> Seq<u8> {
    seq![101u8, 115u8, 105u8]
}

/// Options shared read-only across all documents processed by one instance:
/// the tag-name prefix that marks directive markup, and the bound on nested
/// fragment resolution.
#[derive(Debug, Clone)]
pub struct Configuration {
    pub namespace: Vec<u8>,
    pub max_fragment_depth: u32,
}

impl Configuration {
    pub fn new(namespace: Vec<u8>, max_fragment_depth: u32) -> (c: Configuration)
        ensures
            c.namespace == namespace,
            c.max_fragment_depth == max_fragment_depth,
    {
        Configuration { namespace, max_fragment_depth }
    }
}

impl Default for Configuration {
    fn default() -> (c: Configuration)
        ensures
            c.namespace@ == default_namespace(),
            c.max_fragment_depth == DEFAULT_MAX_FRAGMENT_DEPTH,
    {
        let mut ns: Vec<u8> = Vec::new();
        ns.push(101u8);
        ns.push(115u8);
        ns.push(105u8);
        proof {
            assert(ns@ =~= default_namespace());
        }
        Configuration { namespace: ns, max_fragment_depth: DEFAULT_MAX_FRAGMENT_DEPTH }
    }
}

} // verus!
