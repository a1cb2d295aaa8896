//! Verified core of a Minecraft server status (motd) tool.
//!
//! The library decodes the two rich-text encodings a server may answer with
//! (a legacy control-code stream and a JSON component tree) into styled
//! segments, sizes and pairs an icon raster into half-block glyph cells,
//! decides the race between the Java and Bedrock protocol queries, and lays
//! out the labeled output lines.  Network queries, terminal probing and ANSI
//! painting live outside the library.

pub mod style;
pub mod strutil;
pub mod numfmt;
pub mod legacy;
pub mod json;
pub mod tree;
pub mod icon;
pub mod status;
pub mod racer;
pub mod format;
pub mod cliargs;
pub mod addr;
