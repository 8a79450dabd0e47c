//! A component-based markup rendering engine.
//!
//! A tree of declarative view descriptions ([`html::Html`]) is resolved into a
//! tree of renderable nodes ([`tree::Node`]), registering every embedded
//! component in an identity-keyed arena ([`registry::Registry`]) along the
//! way.  Rendering walks the node tree with a [`tree::Context`] and produces
//! the full markup string; a scheduler loop dispatches callback events to
//! components and re-renders from the root after each one.

pub mod component;
pub mod counter;
pub mod decimal;
pub mod html;
pub mod laws;
pub mod registry;
pub mod renderer;
pub mod tree;

pub use component::Component;
pub use decimal::u64_to_decimal;
pub use html::{Attribute, Block, ComponentRef, Html, Nesting, Segment};
pub use registry::{Identity, Registry};
pub use renderer::Renderer;
pub use tree::{Attributes, Context, Node, Props, RenderError, Tree};
