use vstd::prelude::*;
use vstd::string::StringSliceAdditionalSpecFns;

use crate::vga::{put_bytes, Writer};

verus! {

/// Number of vectors that the processor's dispatch table holds.
pub const IDT_ENTRIES: usize = 256;

/// Vector of the breakpoint exception.
pub const BREAKPOINT_VECTOR: u8 = 3;

/// Vector of the double-fault exception.
pub const DOUBLE_FAULT_VECTOR: u8 = 8;

/// Index of the dedicated stack that the double-fault handler runs on.
pub const DOUBLE_FAULT_IST_INDEX: u16 = 0;

/// What the breakpoint handler reports.
pub const BREAKPOINT_MESSAGE: &'static str = "Exception: BREAKPOINT\n";

/// What the double-fault handler reports before the trap frame.
pub const DOUBLE_FAULT_MESSAGE: &'static str = "Exception: DOUBLE FAULT\n";

/// The handler routines that the table can dispatch to.
#[derive(Debug, Clone, Copy, PartialEq, Eq, Structural)]
pub enum HandlerKind {
    Breakpoint,
    DoubleFault,
}

/// What execution does once a handler has reported.
#[derive(Debug, Clone, Copy, PartialEq, Eq, Structural)]
pub enum TrapOutcome {
    /// Go on at the instruction after the trap.
    Resume,
    /// Stop for good: the handler never returns.
    Halt,
}

/// A registered vector: its handler, and the dedicated stack it runs on, if
/// any.
#[derive(Debug, Clone, Copy, PartialEq, Eq, Structural)]
pub struct Entry {
    pub handler: HandlerKind,
    pub stack_index: Option<u16>,
}

/// The outcome that each handler's trap has.
pub open spec fn spec_outcome(kind: HandlerKind) -> TrapOutcome {
    match kind {
        HandlerKind::Breakpoint => TrapOutcome::Resume,
        HandlerKind::DoubleFault => TrapOutcome::Halt,
    }
}

/// Whether execution resumes after `kind`'s trap or halts.
pub fn outcome(kind: HandlerKind) -> (r: TrapOutcome)
    ensures
        r == spec_outcome(kind),
{
    match kind {
        HandlerKind::Breakpoint => TrapOutcome::Resume,
        HandlerKind::DoubleFault => TrapOutcome::Halt,
    }
}

/// A dispatch table under construction: one optional entry per vector, in
/// fixed storage.
pub struct TableBuilder {
    entries: [Option<Entry>; IDT_ENTRIES],
}

impl View for TableBuilder {
    type V = Seq<Option<Entry>>;

    closed spec fn view(&self) -> Seq<Option<Entry>> {
        self.entries@
    }
}

impl TableBuilder {
    /// A table with no vector registered.
    pub fn new() -> (r: TableBuilder)
        ensures
            r@ == Seq::new(IDT_ENTRIES as nat, |i: int| None::<Entry>),
    {
        let entries: [Option<Entry>; IDT_ENTRIES] = [None; IDT_ENTRIES];
        let r = TableBuilder { entries };
        assert(r@ =~= Seq::new(IDT_ENTRIES as nat, |i: int| None::<Entry>));
        r
    }

    /// Registers `handler` for `vector`, on the interrupted stack.
    pub fn set_handler(&mut self, vector: u8, handler: HandlerKind)
        requires
            old(self)@.len() == IDT_ENTRIES,
        ensures
            final(self)@ == old(self)@.update(
                vector as int,
                Some(Entry { handler, stack_index: None }),
            ),
    {
        self.entries[vector as usize] = Some(Entry { handler, stack_index: None });
    }

    /// Has the handler of `vector` run on dedicated stack `index`. Returns
    /// whether `vector` was registered; the table is unchanged where not.
    pub fn set_stack_index(&mut self, vector: u8, index: u16) -> (r: bool)
        requires
            old(self)@.len() == IDT_ENTRIES,
        ensures
            r == old(self)@[vector as int].is_some(),
            final(self)@ == if r {
                old(self)@.update(
                    vector as int,
                    Some(Entry { handler: old(self)@[vector as int].unwrap().handler, stack_index: Some(index) }),
                )
            } else {
                old(self)@
            },
    {
        match self.entries[vector as usize] {
            Some(e) => {
                self.entries[vector as usize] = Some(Entry { handler: e.handler, stack_index: Some(index) });
                true
            },
            None => false,
        }
    }

    /// Freezes the table in the form that the processor is handed.
    pub fn install(self) -> (r: InstalledTable)
        ensures
            r@ == self@,
    {
        InstalledTable { entries: self.entries }
    }
}

/// A dispatch table in its installed form: it can be read, never changed.
pub struct InstalledTable {
    entries: [Option<Entry>; IDT_ENTRIES],
}

impl View for InstalledTable {
    type V = Seq<Option<Entry>>;

    closed spec fn view(&self) -> Seq<Option<Entry>> {
        self.entries@
    }
}

impl InstalledTable {
    /// The table that the kernel runs with: breakpoints on the interrupted
    /// stack, double faults on their dedicated stack, no other vector.
    pub open spec fn is_kernel_table(&self) -> bool {
        &&& self@.len() == IDT_ENTRIES
        &&& self@[BREAKPOINT_VECTOR as int] == Some(
            Entry { handler: HandlerKind::Breakpoint, stack_index: None },
        )
        &&& self@[DOUBLE_FAULT_VECTOR as int] == Some(
            Entry { handler: HandlerKind::DoubleFault, stack_index: Some(DOUBLE_FAULT_IST_INDEX) },
        )
        &&& forall|v: int|
            0 <= v < IDT_ENTRIES && v != BREAKPOINT_VECTOR && v != DOUBLE_FAULT_VECTOR
                ==> #[trigger] self@[v] == None::<Entry>
    }

    /// Number of vectors.
    pub fn len(&self) -> (r: usize)
        ensures
            r == self@.len(),
    {
        IDT_ENTRIES
    }

    /// The entry of `vector`, if it is registered.
    pub fn entry(&self, vector: u8) -> (r: Option<Entry>)
        requires
            self@.len() == IDT_ENTRIES,
        ensures
            r == self@[vector as int],
    {
        self.entries[vector as usize]
    }
}

/// Builds the kernel's dispatch table: the breakpoint handler, and the
/// double-fault handler on its dedicated stack.
pub fn init_idt() -> (r: InstalledTable)
    ensures
        r.is_kernel_table(),
{
    let mut idt = TableBuilder::new();
    idt.set_handler(BREAKPOINT_VECTOR, HandlerKind::Breakpoint);
    idt.set_handler(DOUBLE_FAULT_VECTOR, HandlerKind::DoubleFault);
    idt.set_stack_index(DOUBLE_FAULT_VECTOR, DOUBLE_FAULT_IST_INDEX);
    idt.install()
}

/// The breakpoint handler's report, written to the console; execution then
/// resumes.
pub fn breakpoint_handler(w: &mut Writer) -> (r: TrapOutcome)
    requires
        old(w).wf(),
    ensures
        r == TrapOutcome::Resume,
        final(w).wf(),
        final(w).attr() == old(w).attr(),
        (final(w).col(), final(w).grid()) == put_bytes(
            old(w).col(),
            old(w).grid(),
            old(w).attr(),
            BREAKPOINT_MESSAGE.spec_bytes(),
        ),
{
    w.write_string(BREAKPOINT_MESSAGE);
    TrapOutcome::Resume
}

/// The double-fault handler's report, with the trap frame as `frame`,
/// written to the console; execution then halts.
pub fn double_fault_handler(w: &mut Writer, frame: &str) -> (r: TrapOutcome)
    requires
        old(w).wf(),
    ensures
        r == TrapOutcome::Halt,
        final(w).wf(),
        final(w).attr() == old(w).attr(),
        (final(w).col(), final(w).grid()) == put_bytes(
            old(w).col(),
            old(w).grid(),
            old(w).attr(),
            DOUBLE_FAULT_MESSAGE.spec_bytes() + frame.spec_bytes(),
        ),
{
    let ghost c0 = w.col();
    let ghost g0 = w.grid();
    w.write_string(DOUBLE_FAULT_MESSAGE);
    w.write_string(frame);
    proof {
        crate::vga::lemma_put_bytes_concat(
            c0,
            g0,
            w.attr(),
            DOUBLE_FAULT_MESSAGE.spec_bytes(),
            frame.spec_bytes(),
        );
    }
    TrapOutcome::Halt
}

} // verus!
