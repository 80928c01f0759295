//! The canvas: a document of layers over stored pixels, and its history.

pub mod adjustments;
pub mod apart;
pub mod arranging;
pub mod automation;
pub mod brushing;
pub mod codec;
pub mod comp;
pub mod edits;
pub mod frame;
pub mod handling;
pub mod history;
pub mod layers;
pub mod messages;
pub mod moves;
pub mod opening;
pub mod package;
pub mod painting;
pub mod pane;
pub mod recall;
pub mod showing;
pub mod store;
pub mod tree;
