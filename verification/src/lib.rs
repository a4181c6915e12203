use vstd::prelude::*;

pub mod config;
pub mod json;
pub mod numeric;
pub mod report;
pub mod text;
pub mod tray;
pub mod webview;

verus! {

} // verus!
