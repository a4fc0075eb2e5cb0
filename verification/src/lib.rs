use vstd::prelude::*;

pub mod adapter;
pub mod attach;
pub mod board;
pub mod catalog;
pub mod detect;
pub mod dispatch;
pub mod json;
pub mod jsontext;
pub mod lifecycle;
pub mod logging;
pub mod navigation;
pub mod notify;
pub mod order;
pub mod paths;
pub mod plugins;
pub mod prompt;
pub mod runtime;
pub mod send;
pub mod session;
pub mod strmap;
pub mod supervisor;
pub mod text;
pub mod usage;
pub mod validate;

verus! {

} // verus!
