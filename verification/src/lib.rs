//! An interactive editor core for directed graphs on a 2D canvas: the graph
//! data model, its force-directed layout simulation, the geometric
//! hit-testing that picks nodes and edges under the pointer, and the
//! mode-based interaction state machine that turns clicks and drags into
//! graph mutations. Rendering, windowing and configuration UI live with the
//! host around this crate.

pub mod config;
pub mod edge;
pub mod geometry;
pub mod graph;
pub mod input;
pub mod node;
