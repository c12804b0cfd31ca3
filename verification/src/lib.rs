//! A minimal 2D drawing toolkit core: a unit-based coordinate system
//! ("murs" — pixels per unit), analytic bounding boxes for signed-distance
//! shapes, an immediate-mode draw-state tracker that skips redundant GPU
//! state changes, symbolic anchoring, and color handling.
//!
//! Coordinates and color channels are exact rational scalars, so every
//! transform identity in the contracts holds exactly rather than up to
//! floating-point error.

pub mod anchor;
pub mod atlas;
pub mod color;
pub mod font;
pub mod input;
pub mod rat;
pub mod rectangle;
pub mod shape;
pub mod state;
pub mod transform;
pub mod uniforms;
pub mod vec2;

pub use anchor::Anchored;
pub use anchor::AxisAnchor;
pub use color::Color;
pub use color::ColorParseError;
pub use input::InputState;
pub use input::Key;
pub use input::SmittenEvent;
pub use rat::Rat;
pub use rat::Ratio;
pub use shape::SignedDistance;
pub use shape::TextureColoring;
pub use state::Draw;
pub use state::DrawState;
pub use state::TextureId;
pub use transform::Transform;
pub use vec2::Vec2;
