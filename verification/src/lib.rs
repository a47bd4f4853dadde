//! A verified codec for the column-aligned, block-structured "native info"
//! text format that describes molecular topology: bonds, angles, dihedral
//! angles and contacts.
//!
//! The crate is organised bottom-up:
//! - [`text`] gives the mathematical model of fixed-width text fields:
//!   trimming, decimal digit strings, and space padding.
//! - [`fixed`] models the 12-column, four-decimal-place numeric fields as
//!   exact fixed-point values.
//! - [`line`] walks one line with a [`line::LineCursor`], consuming typed
//!   fields at fixed widths.
//! - [`group`] parses and formats the shared particle-group sub-grammar.
//! - [`records`] defines the six record kinds and proves the round-trip law
//!   for each: formatting a parsed record reproduces the source line.
//! - [`block`] splits a line stream into labelled, delimited blocks.
//! - [`native_info`] assembles whole documents and serialises the contact
//!   block.
use vstd::prelude::*;

pub mod block;
pub mod error;
pub mod fixed;
pub mod group;
pub mod line;
pub mod native_info;
pub mod records;
pub mod text;

verus! {

/// Advance `cursor` over a buffered stream of lines by `num_lines`,
/// saturating at the end of the stream, as a line-by-line reader would when
/// it keeps reading at end of input.
pub fn skip_lines(lines: &Vec<String>, cursor: &mut usize, num_lines: usize)
    requires
        *old(cursor) <= lines@.len(),
    ensures
        *final(cursor) == if *old(cursor) + num_lines <= lines@.len() {
            *old(cursor) + num_lines
        } else {
            lines@.len() as int
        },
{
    if num_lines <= lines.len() - *cursor {
        *cursor = *cursor + num_lines;
    } else {
        *cursor = lines.len();
    }
}

} // verus!
