//! Procedural grass: the decisions behind generating blades of grass over a
//! mesh, grouping them into chunks, and queueing and drawing those chunks.
//!
//! - `chunk`: levels of detail, culling dimensions, triangles of an index
//!   list, and grass instances grouped by chunk.
//! - `queue`: the mesh pipeline key each grass entity is specialised with.
//! - `command`: the render commands that bind the grass and wind bind groups
//!   and draw an entity's chunks.
pub mod chunk;
pub mod command;
pub mod queue;
