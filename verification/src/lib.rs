//! A small logging toolkit together with the cursor-aware, line-wrapped
//! input buffer that backs an interactive prompt.
//!
//! The heart of the crate is [`input_buffer::InputBuf`]: an ordered sequence
//! of text units with a movable edit cursor whose visual coordinates
//! (display row and column) are maintained under line wrapping at a fixed
//! screen width. The remaining modules hold the data types and the pure
//! text formatting that the logging side of the crate is built from.

pub mod colour;
pub mod input_buffer;
pub mod log;
pub mod logger;
pub mod sbl;

pub use colour::Colours;
pub use input_buffer::InputBuf;
pub use input_buffer::input_buffer_node::InputBufNode;
pub use log::ErrorResponse;
pub use log::Log;
pub use log::LogType;
pub use sbl::PanicLogger;
