use vstd::prelude::*;

pub mod agent;
pub mod controller;
pub mod describe;
pub mod interactive;
pub mod messages;
pub mod nodes;
pub mod store;
pub mod template;
pub mod text;
pub mod tools;
pub mod values;
pub mod wrappers;

pub use agent::{BarkState, ModelError};
pub use controller::BarkController;
pub use messages::{
    BarkContent, BarkMessage, BarkResponse, BarkRole, BarkToolCall, BarkToolCallResponse, Choice,
};
pub use text::strip_thoughts;
pub use tools::apply_tool_filters;
pub use values::{MessageValue, PromptValue, TextMatcher, TextValue, VariableId};

verus! {

} // verus!
