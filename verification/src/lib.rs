//! Decoder for the readout words of the TDCpix pixel-detector chip.
//!
//! A readout file is text: one line per acquisition frame, each line a run
//! of hexadecimal tokens. The last token of a line is the frame word, the
//! tokens before it are data words, one per pixel hit. This crate turns such
//! text into [`Chunk`]s, reconstructs hit times in picoseconds and maps group
//! addresses onto pixel coordinates. It also keeps the state of an analysis
//! session over a loaded readout: which chunk is looked at, which pixels it
//! lights up, and which pixel is picked.
//!
//! Every function carries a contract that Verus proves against its body.

pub mod address;
pub mod chunk;
pub mod error;
pub mod hex;
pub mod index;
pub mod pixel;
pub mod pixelgrid;
pub mod tdcpixapp;
pub mod text;
pub mod time;
pub mod timeline;
pub mod word;

pub use address::{map_address, map_words};
pub use chunk::{parse, parse_line, parse_tdcpix_txt, Chunk};
pub use error::ParseError;
pub use pixel::HitType;
pub use tdcpixapp::TDCpixApp;
pub use time::decode_time;
pub use word::{DataWord, FrameWord, TDCpixWord};
