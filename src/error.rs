use vstd::prelude::*;

verus! {

/// The ways a translation can fail.
#[derive(Debug, Clone, Copy, PartialEq, Eq, Structural)]
pub enum AsmError {
    /// A line that is neither blank, a comment, nor one of the three instruction shapes.
    MalformedLine,
    /// A computation mnemonic outside the architecture's table.
    UnknownComp,
    /// A jump mnemonic outside the architecture's table.
    UnknownJump,
    /// An address (label position or variable slot) that does not fit in 16 bits.
    AddressOverflow,
}

} // verus!
