//! Gzip compression.

use vstd::prelude::*;
use std::io::Write;

verus! {

/// How hard the compressor works.
#[derive(Clone, Copy, Debug, PartialEq, Eq, Structural)]
pub enum Effort {
    /// Stored blocks only.
    Stored,
    /// The compressor's default trade-off.
    Usual,
    /// The smallest output.
    Best,
}

impl Effort {
    /// The compression level that an effort stands for.
    pub open spec fn level(self) -> u32 {
        match self {
            Effort::Stored => 0,
            Effort::Usual => 6,
            Effort::Best => 9,
        }
    }
}

/// The gzip member that `flate2::write::GzEncoder` produces for `data` at
/// compression level `level`.
pub uninterp spec fn gzip_member(data: Seq<u8>, level: u32) -> Seq<u8>;

/// `flate2::Compression::none`: level 0.
#[verifier::external_body]
fn stored_level() -> (level: u32)
    ensures
        level == 0,
{
    flate2::Compression::none().level()
}

/// `flate2::Compression::default`: level 6.
#[verifier::external_body]
fn usual_level() -> (level: u32)
    ensures
        level == 6,
{
    flate2::Compression::default().level()
}

/// `flate2::Compression::best`: level 9.
#[verifier::external_body]
fn best_level() -> (level: u32)
    ensures
        level == 9,
{
    flate2::Compression::best().level()
}

/// `flate2::write::GzEncoder` over a vector, fed all of `data` and finished.
///
/// The header carries no time and no name and its system byte is fixed, so the
/// member depends on the data and the level alone. It has a ten-byte header
/// that starts with the gzip magic number, the deflate method and an empty flag
/// byte, and an eight-byte trailer. Writing to a vector does not fail. What lies between
/// header and trailer has no statement here beyond its name.
#[verifier::external_body]
fn gzip(data: &[u8], level: u32) -> (member: Vec<u8>)
    requires
        level <= 9,
    ensures
        member@ == gzip_member(data@, level),
        member@.len() >= 18,
        member@[0] == 0x1F && member@[1] == 0x8B && member@[2] == 8 && member@[3] == 0,
{
    let mut enc = flate2::write::GzEncoder::new(Vec::new(), flate2::Compression::new(level));
    let _ = enc.write_all(data);
    enc.finish().unwrap_or_default()
}

/// Compresses `data` into one gzip member.
pub fn compress(data: &[u8], effort: Effort) -> (member: Vec<u8>)
    ensures
        member@ == gzip_member(data@, effort.level()),
        member@.len() >= 18,
        member@[0] == 0x1F && member@[1] == 0x8B && member@[2] == 8 && member@[3] == 0,
{
    let level: u32 = match effort {
        Effort::Stored => stored_level(),
        Effort::Usual => usual_level(),
        Effort::Best => best_level(),
    };
    gzip(data, level)
}

} // verus!
