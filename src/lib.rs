//! Bubble stream codec: a streaming container of spatial-audio bubbles whose
//! segments carry PCM samples or a per-frame expression, chained by CRC trailers.

pub mod bytes;
pub mod crc;
pub mod error;
pub mod frame_reader;
pub mod functions;
pub mod metadata;
pub mod state;
pub mod wav;

pub use crate::crc::Crc;
pub use crate::error::BubError;
pub use crate::metadata::{BubSampleKind, LpcmKind};
pub use crate::state::BubState;
