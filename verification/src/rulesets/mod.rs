//! The four rulesets, each a generation function and the laws that it keeps.

pub mod brians_brain_ruleset;
pub mod conway_ruleset;
pub mod lwod_ruleset;
pub mod seeds_ruleset;
