//! Turns a chronological log of memory-placement attempts into a sequence of
//! bitmap frames: where each attempt lands in banked address space, and which
//! placements become permanent.

pub mod canvas;
pub mod geometry;
pub mod model;
pub mod parse;
pub mod render;
pub mod sequencer;
pub mod text;

pub use canvas::Canvas;
pub use model::Frame;
pub use model::Location;
pub use model::MemType;
pub use model::Section;
pub use model::Sequence;
pub use parse::parse_input;
pub use parse::LocationParseError;
pub use parse::ParseError;
pub use parse::SectionParseError;
pub use render::RenderError;
pub use render::Renderer;
pub use sequencer::Sequencer;
