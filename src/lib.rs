//! A bounds-checked, panic-free reader for TrueType/OpenType font data.
//!
//! The library reads big-endian fields out of a borrowed byte buffer with a
//! cursor, exposes fixed-size records through a lazy view, parses the naming
//! table and resolves family and PostScript names, and streams glyph outlines
//! into a caller-supplied sink.
pub mod parser;
pub mod name;
pub mod outline;

use vstd::prelude::*;

verus! {

/// Why an internal parse step failed.
#[derive(Clone, Copy, PartialEq, Eq, Debug, Structural)]
pub enum Error {
    /// The font has no table of the requested kind.
    TableMissing,
    /// The table's structure is not one of the supported variants.
    MalformedRecordRegion,
    /// A read would have gone past the end of the data.
    ReadOutOfBounds,
    /// A size or length computation overflowed.
    ArithmeticOverflow,
    /// Text bytes are not a valid UTF-16 sequence.
    InvalidTextEncoding,
}

/// A view of a font: the byte ranges of the tables that the library reads.
///
/// Locating tables inside a font file is done by the caller; the font only
/// borrows what it is handed and never copies it.
#[derive(Clone, Copy)]
pub struct Font<'a> {
    name: Option<&'a [u8]>,
}

impl<'a> Font<'a> {
    /// The bytes of the naming table, if the font has one.
    pub closed spec fn name_data(&self) -> Option<Seq<u8>> {
        match self.name {
            Some(d) => Some(d@),
            None => None,
        }
    }

    /// Makes a font view from the bytes of its naming table.
    pub fn from_name_table(name: Option<&'a [u8]>) -> (r: Font<'a>)
        ensures
            r.name_data() == (match name {
                Some(d) => Some(d@),
                None => None,
            }),
    {
        Font { name }
    }

    /// The bytes of the naming table, if the font has one.
    pub fn name_table(&self) -> (r: Option<&'a [u8]>)
        ensures
            r.is_some() == self.name_data().is_some(),
            r.is_some() ==> r.unwrap()@ == self.name_data().unwrap(),
    {
        self.name
    }
}

} // verus!
