//! The interrupt dispatch substrate: the 256-entry vector table built once
//! at boot, the 16-entry registry of pluggable hardware-line handlers, and
//! the register marshalling of the software-interrupt syscall gate.
//!
//! Loading the table into the CPU and the raw save/restore stub are
//! hardware operations performed outside this crate; what is routed where,
//! and what the trampoline must leave untouched, is specified and verified
//! here.

use vstd::prelude::*;

use crate::pic::clear_irq_mask;
use crate::pic::Pics;
use crate::rtc::Clock;
use crate::syscall::dispatcher;
use crate::syscall::spec_dispatch;

verus! {

/// The vector at which hardware line 0 lands after remapping: above the
/// CPU-reserved exception range.
pub const PIC_1_OFFSET: u8 = 32;

/// The vector base of the secondary chip: eight above the primary's.
pub const PIC_2_OFFSET: u8 = PIC_1_OFFSET + 8;

/// The fixed software vector of the syscall gate.
pub const SYSCALL_VECTOR: u8 = 0x80;

pub const BREAKPOINT_VECTOR: u8 = 3;

pub const DOUBLE_FAULT_VECTOR: u8 = 8;

pub const PAGE_FAULT_VECTOR: u8 = 14;

/// The vector serving hardware line `irq`: controller base offset plus
/// line number.
pub fn interrupt_index(irq: u8) -> (v: u8)
    requires
        irq < 16,
    ensures
        v == PIC_1_OFFSET + irq,
{
    PIC_1_OFFSET + irq
}

/// What one vector-table entry routes to.
#[derive(Copy, Clone, PartialEq, Eq, Structural, Debug)]
pub enum IdtEntry {
    /// No handler installed; the CPU escalates an event here to a double
    /// fault, which is fatal.
    Missing,
    /// Logs the interrupted frame and resumes: intentionally non-fatal, to
    /// support debugging.
    Breakpoint,
    /// Always fatal; runs on a dedicated known-good stack programmed at
    /// the hardware layer, since the trigger may be stack corruption.
    DoubleFault,
    /// Logs the faulting address, error code and frame, then halts: with
    /// no demand paging, any page fault is a bug.
    PageFault,
    /// The generated stub for one hardware line: consults the handler
    /// registry, then acknowledges the controller.
    Irq(u8),
    /// The trampoline of the software-interrupt syscall gate.
    Syscall,
}

/// The interrupt vector table: built once at boot, logically immutable
/// thereafter. Nothing in this design reloads it after the initial load.
pub struct VectorTable {
    pub entries: Vec<IdtEntry>,
}

impl VectorTable {
    pub open spec fn wf(self) -> bool {
        self.entries@.len() == 256
    }
}

/// Builds the boot vector table: breakpoint, double fault and page fault
/// at their fixed exception vectors, one stub per hardware line at
/// "controller base offset + line", the syscall trampoline at its fixed
/// software vector, and nothing anywhere else.
pub fn init_idt() -> (t: VectorTable)
    ensures
        t.wf(),
        t.entries@[BREAKPOINT_VECTOR as int] == IdtEntry::Breakpoint,
        t.entries@[DOUBLE_FAULT_VECTOR as int] == IdtEntry::DoubleFault,
        t.entries@[PAGE_FAULT_VECTOR as int] == IdtEntry::PageFault,
        forall|i: int|
            0 <= i < 16 ==> #[trigger] t.entries@[PIC_1_OFFSET + i] == IdtEntry::Irq(i as u8),
        t.entries@[SYSCALL_VECTOR as int] == IdtEntry::Syscall,
        forall|i: int|
            0 <= i < 256 && i != BREAKPOINT_VECTOR && i != DOUBLE_FAULT_VECTOR && i
                != PAGE_FAULT_VECTOR && i != SYSCALL_VECTOR && !(PIC_1_OFFSET <= i < PIC_1_OFFSET
                + 16) ==> t.entries@[i] == IdtEntry::Missing,
{
    let mut entries: Vec<IdtEntry> = Vec::new();
    let mut i: usize = 0;
    while i < 256
        invariant
            i <= 256,
            entries@.len() == i,
            forall|j: int| 0 <= j < i ==> entries@[j] == IdtEntry::Missing,
        decreases 256 - i,
    {
        entries.push(IdtEntry::Missing);
        i = i + 1;
    }
    entries[BREAKPOINT_VECTOR as usize] = IdtEntry::Breakpoint;
    entries[DOUBLE_FAULT_VECTOR as usize] = IdtEntry::DoubleFault;
    entries[PAGE_FAULT_VECTOR as usize] = IdtEntry::PageFault;
    let mut irq: u8 = 0;
    while irq < 16
        invariant
            irq <= 16,
            entries@.len() == 256,
            entries@[BREAKPOINT_VECTOR as int] == IdtEntry::Breakpoint,
            entries@[DOUBLE_FAULT_VECTOR as int] == IdtEntry::DoubleFault,
            entries@[PAGE_FAULT_VECTOR as int] == IdtEntry::PageFault,
            forall|i: int| 0 <= i < irq ==> #[trigger] entries@[PIC_1_OFFSET + i] == IdtEntry::Irq(i as u8),
            forall|i: int|
                0 <= i < 256 && i != BREAKPOINT_VECTOR && i != DOUBLE_FAULT_VECTOR && i
                    != PAGE_FAULT_VECTOR && !(PIC_1_OFFSET <= i < PIC_1_OFFSET + irq)
                    ==> entries@[i] == IdtEntry::Missing,
        decreases 16 - irq,
    {
        let v = interrupt_index(irq);
        entries[v as usize] = IdtEntry::Irq(irq);
        irq = irq + 1;
    }
    entries[SYSCALL_VECTOR as usize] = IdtEntry::Syscall;
    VectorTable { entries }
}

/// The identifier of the inert default cell of the handler registry.
pub const DEFAULT_IRQ_HANDLER: u64 = 0;

/// The default handler: does nothing. A line fires it until something is
/// registered.
pub fn default_irq_handler() {
}

/// The registry mapping each of the 16 hardware lines to the identifier of
/// its handler. Handlers run in interrupt context: they must not block or
/// allocate, and every mutation of this table happens with interrupts
/// disabled — the embedder's duty, since the interrupt that walks the
/// table cannot take a blocking lock.
pub struct IrqTable {
    pub handlers: Vec<u64>,
}

impl IrqTable {
    pub open spec fn wf(self) -> bool {
        self.handlers@.len() == 16
    }

    /// A fresh registry: every cell holds the inert default handler.
    pub fn new() -> (t: IrqTable)
        ensures
            t.wf(),
            forall|i: int| 0 <= i < 16 ==> t.handlers@[i] == DEFAULT_IRQ_HANDLER,
    {
        let mut handlers: Vec<u64> = Vec::new();
        let mut i: usize = 0;
        while i < 16
            invariant
                i <= 16,
                handlers@.len() == i,
                forall|j: int| 0 <= j < i ==> handlers@[j] == DEFAULT_IRQ_HANDLER,
            decreases 16 - i,
        {
            handlers.push(DEFAULT_IRQ_HANDLER);
            i = i + 1;
        }
        IrqTable { handlers }
    }
}

/// Replaces the handler cell of hardware line `irq` and unmasks the line:
/// a handler is inert until registered, and registering it makes the line
/// deliverable. The embedder calls this with interrupts disabled.
pub fn set_irq_handler(table: &mut IrqTable, pics: &mut Pics, irq: u8, handler: u64)
    requires
        old(table).wf(),
        irq < 16,
    ensures
        final(table).wf(),
        final(table).handlers@ == old(table).handlers@.update(irq as int, handler),
        final(pics)@.same_but_masks(old(pics)@),
        forall|l: u8|
            l < 16 ==> final(pics)@.line_masked(l) == (l != irq && old(pics)@.line_masked(l)),
{
    table.handlers[irq as usize] = handler;
    clear_irq_mask(pics, irq);
}

/// The stub path for one asserted hardware line, as the generated
/// vector-table stubs run it: a masked line never fires and nothing
/// changes; an unmasked line yields the registered handler identifier for
/// the embedder to invoke, and the controller receives exactly one
/// acknowledgment for the line's vector — on the primary chip for lines
/// 0-7, and on both chips (the cascade) for lines 8-15.
pub fn hardware_interrupt(table: &IrqTable, pics: &mut Pics, line: u8) -> (r: Option<u64>)
    requires
        table.wf(),
        line < 16,
        old(pics)@.primary.offset == PIC_1_OFFSET,
        old(pics)@.secondary.offset == PIC_2_OFFSET,
    ensures
        old(pics)@.line_masked(line) ==> r is None && final(pics)@ == old(pics)@,
        !old(pics)@.line_masked(line) ==> {
            &&& r == Some(table.handlers@[line as int])
            &&& final(pics)@ == old(pics)@.acked((PIC_1_OFFSET + line) as u8)
            &&& line < 8 ==> final(pics)@.primary.eoi_log == old(pics)@.primary.eoi_log.push(
                (PIC_1_OFFSET + line) as u8,
            ) && final(pics)@.secondary.eoi_log == old(pics)@.secondary.eoi_log
            &&& line >= 8 ==> final(pics)@.primary.eoi_log == old(pics)@.primary.eoi_log.push(
                (PIC_1_OFFSET + line) as u8,
            ) && final(pics)@.secondary.eoi_log == old(pics)@.secondary.eoi_log.push(
                (PIC_1_OFFSET + line) as u8,
            )
        },
{
    let masked = if line < 8 {
        pics.primary.mask & (1u8 << line) != 0
    } else {
        pics.secondary.mask & (1u8 << (line - 8)) != 0
    };
    if masked {
        return None;
    }
    let handler = table.handlers[line as usize];
    let vector = interrupt_index(line);
    pics.notify_end_of_interrupt(vector);
    Some(handler)
}

/// An ordered capture of all caller-visible general-purpose registers, in
/// the fixed order the trampoline pushes them. Save and restore must be
/// bit-exact; only the slot restored as the result register may change.
#[derive(Copy, Clone, PartialEq, Eq, Structural, Debug)]
pub struct Registers {
    pub r15: u64,
    pub r14: u64,
    pub r13: u64,
    pub r12: u64,
    pub r11: u64,
    pub r10: u64,
    pub r9: u64,
    pub r8: u64,
    pub rdi: u64,
    pub rsi: u64,
    pub rdx: u64,
    pub rcx: u64,
    pub rbx: u64,
    pub rax: u64,
    pub rbp: u64,
}

/// The dispatch the syscall trampoline calls between saving and restoring
/// the register block: the syscall number and up to three arguments are
/// read from their fixed slots, the numbered handler's result is written
/// into the slot restored as the result register, and every other slot is
/// left byte-identical. The interrupt is then acknowledged through the
/// same controller path the hardware stubs use, although the syscall
/// vector is software-raised and owned by neither chip, so the command
/// changes nothing there.
pub fn syscall_handler(regs: &mut Registers, clock: &Clock, pics: &mut Pics)
    ensures
        final(regs).rax == spec_dispatch(
            *clock,
            old(regs).rax,
            old(regs).rdi,
            old(regs).rsi,
            old(regs).rdx,
        ),
        *final(regs) == (Registers { rax: final(regs).rax, ..*old(regs) }),
        final(pics)@ == old(pics)@.acked(SYSCALL_VECTOR),
{
    let n = regs.rax;
    let arg1 = regs.rdi;
    let arg2 = regs.rsi;
    let arg3 = regs.rdx;
    regs.rax = dispatcher(clock, n, arg1, arg2, arg3);
    pics.notify_end_of_interrupt(SYSCALL_VECTOR);
}

} // verus!
