use vstd::prelude::*;
use crate::json::JsonValue;

verus! {

/// A visual shown on the canvas, restored with a session.
#[derive(Debug)]
pub struct VisualData {
    pub type_: String,
    pub content: String,
}

/// One saved session: its chat as a JSON value, the canvas contents and
/// any visual.
#[derive(Debug)]
pub struct SessionData {
    pub name: String,
    pub timestamp: String,
    pub chat: Option<JsonValue>,
    pub main_canvas: Option<String>,
    pub left_canvas: Option<String>,
    pub visuals: Option<VisualData>,
}

} // verus!
