//! Decoding of E-AC-3 with object audio.

pub mod frame;
pub mod joc;
pub mod mix_laws;
pub mod pcm;
pub mod qmf;
pub mod rebuild_laws;
pub mod reconstruction;
pub mod repeats;
pub mod stream;
pub mod synthesis;
pub mod types;
pub mod unit_laws;
