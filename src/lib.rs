//! A text-mode console over a fixed character grid, and the processor's
//! exception-dispatch table, with their behaviour stated and proved.
pub mod interrupts;
pub mod vga;

use vstd::prelude::*;

verus! {

use crate::interrupts::{init_idt, InstalledTable};

/// Builds the exception-dispatch table that kernel startup installs before
/// anything else can raise an exception.
pub fn init() -> (r: InstalledTable)
    ensures
        r.is_kernel_table(),
{
    init_idt()
}

} // verus!
