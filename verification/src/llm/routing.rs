//! Which model serves which kind of process.
use crate::llm::model;
use crate::llm::model::SpacebotModel;
use crate::text_map::TextMap;
use vstd::prelude::*;

verus! {

/// The models of an agent, with overrides by task and fallbacks by model.
pub struct RoutingConfig {
    pub channel: String,
    pub branch: String,
    pub worker: String,
    pub compactor: String,
    pub cortex: String,
    pub task_overrides: TextMap<String>,
    pub fallbacks: TextMap<Vec<String>>,
    pub rate_limit_cooldown_secs: u64,
}

/// What a [`RoutingConfig`] says.
pub struct RoutingView {
    pub channel: Seq<char>,
    pub branch: Seq<char>,
    pub worker: Seq<char>,
    pub compactor: Seq<char>,
    pub cortex: Seq<char>,
    pub task_overrides: Map<Seq<char>, Seq<char>>,
    pub fallbacks: Map<Seq<char>, Seq<Seq<char>>>,
    pub rate_limit_cooldown_secs: u64,
}

impl View for RoutingConfig {
    type V = RoutingView;

    open spec fn view(&self) -> RoutingView {
        RoutingView {
            channel: self.channel@,
            branch: self.branch@,
            worker: self.worker@,
            compactor: self.compactor@,
            cortex: self.cortex@,
            task_overrides: self.task_overrides@,
            fallbacks: self.fallbacks@,
            rate_limit_cooldown_secs: self.rate_limit_cooldown_secs,
        }
    }
}

impl Clone for RoutingConfig {
    fn clone(&self) -> (r: Self)
        ensures
            r@ == self@,
    {
        RoutingConfig {
            channel: self.channel.clone(),
            branch: self.branch.clone(),
            worker: self.worker.clone(),
            compactor: self.compactor.clone(),
            cortex: self.cortex.clone(),
            task_overrides: self.task_overrides.copy(),
            fallbacks: self.fallbacks.copy_lists(),
            rate_limit_cooldown_secs: self.rate_limit_cooldown_secs,
        }
    }
}

/// The provider of a model, from its full name.
pub fn provider_from_model(model: &str) -> (r: String)
    ensures
        r@ == model::name_parts(model@).0,
{
    SpacebotModel::make(model).provider
}

} // verus!
