//! The chart logic of a terminal trading panel: order flow, footprint analysis, axis labels,
//! drawing tools, themes, subscriptions and history loading, each stated and proved with Verus.

pub mod axis;
pub mod book;
pub mod creating;
pub mod custom;
pub mod double;
pub mod export;
pub mod flow;
pub mod footprint;
pub mod live;
pub mod load;
pub mod marks;
pub mod pointer;
pub mod presets;
pub mod sorted;
pub mod text;
pub mod tools;
