//! The developer surfaces of Majordomus: the command graph a person types at, and the
//! server-rendered Cockpit, as plain values with their contracts.

pub mod digest;
pub mod order;
pub mod strings;
pub mod url;
pub mod cockpit;
pub mod command;
