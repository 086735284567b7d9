//! Fixed configuration values that tests of the surrounding runtime start
//! from.

use vstd::prelude::*;

verus! {

/// The options an agent run starts from: for this core, the model name.
pub struct AgentOptions {
    /// The model the run would address.
    pub model: String,
}

impl AgentOptions {
    /// Options naming the given model.
    pub fn new(model: &str) -> (r: AgentOptions)
        ensures
            r.model@ == model@,
    {
        AgentOptions { model: model.to_owned() }
    }
}

/// The agent options every test run starts from.
pub fn default_agent_config_for_test() -> (r: AgentOptions)
    ensures
        r.model@ == "gpt-4o-mini"@,
{
    AgentOptions::new("gpt-4o-mini")
}

} // verus!
