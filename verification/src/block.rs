//! Verified blocks built from raw finalized-block headers.
//!
//! A raw header arrives on the event stream; its conversion into a
//! [`VerifiedBlock`] is fallible, and a block may legitimately carry no
//! erasure-coded extension, in which case there is nothing to sample.

use crate::matrix::Dimensions;
use vstd::prelude::*;

verus! {

/// A raw finalized-block header as the inbound event stream carries it:
/// the block number and, when the block has an erasure-coded payload,
/// the claimed dimensions of its extension.
#[derive(Clone, Copy, PartialEq, Eq, Structural, Debug)]
pub struct RawHeader {
    pub number: u32,
    pub extension: Option<RawExtension>,
}

/// The extension part of a raw header: the matrix dimensions the
/// header claims for the block's erasure-coded payload.
#[derive(Clone, Copy, PartialEq, Eq, Structural, Debug)]
pub struct RawExtension {
    pub rows: u16,
    pub cols: u16,
}

/// Why a raw header failed to convert into a verified block.
#[derive(Clone, Copy, PartialEq, Eq, Structural, Debug)]
pub enum HeaderError {
    /// The header claims an extension whose matrix has no rows or no
    /// columns; such a block cannot be addressed cell by cell.
    InvalidDimensions { rows: u16, cols: u16 },
}

/// The validated extension of a block: its matrix dimensions.
#[derive(Clone, Copy, PartialEq, Eq, Structural, Debug)]
pub struct Extension {
    pub dimensions: Dimensions,
}

/// A validated block, ready for sampling and downstream forwarding.
#[derive(Clone, Copy, PartialEq, Eq, Structural, Debug)]
pub struct VerifiedBlock {
    pub block_num: u32,
    pub extension: Option<Extension>,
}

impl RawHeader {
    /// A header is valid when the extension it claims, if any, has at
    /// least one row and one column.
    pub open spec fn spec_valid(self) -> bool {
        match self.extension {
            Some(e) => e.rows >= 1 && e.cols >= 1,
            None => true,
        }
    }

    /// The verified block a valid header converts into.
    pub open spec fn spec_block(self) -> VerifiedBlock {
        VerifiedBlock {
            block_num: self.number,
            extension: match self.extension {
                Some(e) => Some(
                    Extension { dimensions: Dimensions { rows: e.rows, cols: e.cols } },
                ),
                None => None,
            },
        }
    }
}

impl VerifiedBlock {
    pub open spec fn wf(self) -> bool {
        match self.extension {
            Some(e) => e.dimensions.wf(),
            None => true,
        }
    }

    pub fn is_well_formed(&self) -> (r: bool)
        ensures
            r == self.wf(),
    {
        match &self.extension {
            Some(e) => e.dimensions.rows >= 1 && e.dimensions.cols >= 1,
            None => true,
        }
    }

    /// Fallible conversion of a raw header into a verified block.
    ///
    /// A header without an extension yields a block without one; a
    /// header whose claimed extension has zero rows or zero columns is
    /// rejected, and exactly those headers are.
    pub fn try_from_header(header: &RawHeader) -> (r: Result<VerifiedBlock, HeaderError>)
        ensures
            header.spec_valid() ==> r == Ok::<VerifiedBlock, HeaderError>(header.spec_block()),
            !header.spec_valid() ==> (header.extension matches Some(e) && r == Err::<
                VerifiedBlock,
                HeaderError,
            >(HeaderError::InvalidDimensions { rows: e.rows, cols: e.cols })),
            r matches Ok(b) ==> b.wf(),
    {
        match header.extension {
            Some(e) => {
                if e.rows >= 1 && e.cols >= 1 {
                    Ok(
                        VerifiedBlock {
                            block_num: header.number,
                            extension: Some(
                                Extension {
                                    dimensions: Dimensions { rows: e.rows, cols: e.cols },
                                },
                            ),
                        },
                    )
                } else {
                    Err(HeaderError::InvalidDimensions { rows: e.rows, cols: e.cols })
                }
            },
            None => Ok(VerifiedBlock { block_num: header.number, extension: None }),
        }
    }
}

} // verus!
