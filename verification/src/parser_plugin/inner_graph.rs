//! Recording which export uses which binding.

use vstd::prelude::*;
use crate::inner_graph::InnerGraphMapUsage;
use crate::parser::JavascriptParser;

verus! {

/// Keeps the usage map of the traversal.
pub struct InnerGraphPlugin;

impl InnerGraphPlugin {
    /// Records one use of the top-level binding `name`.
    pub fn add_variable_usage<P>(
        parser: &mut JavascriptParser<P>,
        name: &String,
        usage: InnerGraphMapUsage,
    )
        ensures
            final(parser)@ == old(parser)@.add_usage(name@, usage@),
            final(parser).plugin_drive == old(parser).plugin_drive,
    {
        parser.inner_graph.add_usage(name.clone(), usage);
    }
}

} // verus!
