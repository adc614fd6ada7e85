//! Verified core of the vector3d engine: the `.vec` model format and its
//! save/load laws, the stroke font's glyph layout, keyboard/mouse button
//! state and the shell's window-event decisions, the dash's charges, and
//! the deterministic noise source behind the synthesized sound bank.

pub mod audio;
pub mod codec;
pub mod dash;
pub mod font;
pub mod input;
pub mod model;
pub mod roundtrip;
pub mod shell;

pub use audio::{Noise, Sfx};
pub use codec::{
    read_items, write_chunk, write_float_bits, write_u32, write_vec3, Cursor, VecItem, EDGE_BYTES,
    MAX_COUNT, VEC_MAGIC, VEC_VERSION,
};
pub use dash::{DashState, DashTrigger};
pub use font::{strokes, text_segments, text_segments_into, GridSegment};
pub use input::{Input, MOUSE_LEFT};
pub use shell::{handle_event, ShellAction, ShellEvent};
pub use model::{
    invalid, EdgeKind, EdgeStroke, Vec3Bits, VecEdge, VecError, VecModel, STYLE_DASH,
    STYLE_FLICKER,
};
