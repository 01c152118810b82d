//! Video decoding through FFmpeg's decoders: which decoders to look for on a
//! machine, how to try them out, and how the pictures they deliver become
//! frames in memory; and, for the build of a program, which libraries of FFmpeg to
//! link. Everything here works on plain values; the calls into FFmpeg itself, and
//! into the file system, are made by the program that uses the library.
pub mod c_string;
pub mod common;
pub mod ffmpeg;
pub mod ffmpeg_ram;
pub mod laws;
pub mod link;
pub mod text;
