//! A falling-character terminal animation engine: colour arithmetic for the
//! fade palette, the per-column stream state machine, a double-buffered screen
//! model with minimal-diff output, and the decisions of the frame loop.
//!
//! All quantities are integers: blend and brighten factors are exact ratios,
//! positions are kept in thousandths of a row, and chances in parts per million.

pub mod color;
pub mod screen;
pub mod drop;
pub mod engine;
pub mod scheduler;

pub use color::{RgbColor, ColorParseError, ColorTheme, normalize_channel, lemma_blend_endpoints, lemma_blend_fixed_point, lemma_brighten_identity_and_cap};
pub use screen::{Screen, TermOp, lemma_unchanged_emits_nothing, lemma_stale_redraws_everything};
pub use drop::{Drop, lemma_still_drop_keeps_position, lemma_leaves_only_past_bottom};
pub use engine::{MatrixEngine, total_drops, lemma_fade_palette_ends, TRAIL_STEPS, MAX_DENSITY};
pub use scheduler::{InputEvent, LoopAction, on_input, fall_distance, FrameClock, Rain};
