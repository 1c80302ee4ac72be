use woshd_console::init;
use woshd_console::interrupts::{
    breakpoint_handler, double_fault_handler, init_idt, outcome, Entry, HandlerKind, TableBuilder,
    TrapOutcome, BREAKPOINT_MESSAGE, BREAKPOINT_VECTOR, DOUBLE_FAULT_IST_INDEX, DOUBLE_FAULT_VECTOR,
    IDT_ENTRIES,
};
use volatile::Volatile;
use woshd_console::vga::{
    Buffer, Character, Color, ColorCode, Writer, GRID_LEN, VGA_SIZE_H, VGA_SIZE_W,
};

fn writer(color: ColorCode) -> Writer {
    let cells: &'static mut [Volatile<u16>; GRID_LEN] =
        Box::leak(Box::new(std::array::from_fn(|_| Volatile::new(0x0020u16))));
    Writer::new(color, Buffer::bind(cells))
}

fn row_text(w: &Writer, row: usize) -> String {
    (0..VGA_SIZE_W).map(|c| w.read_char(row, c).ascii as char).collect::<String>()
}

#[test]
fn kernel_table_registers_breakpoint_and_double_fault() {
    let t = init_idt();
    assert_eq!(t.len(), IDT_ENTRIES);
    assert_eq!(
        t.entry(3),
        Some(Entry { handler: HandlerKind::Breakpoint, stack_index: None })
    );
    assert_eq!(
        t.entry(8),
        Some(Entry { handler: HandlerKind::DoubleFault, stack_index: Some(DOUBLE_FAULT_IST_INDEX) })
    );
    for v in 0..=255u8 {
        if v != BREAKPOINT_VECTOR && v != DOUBLE_FAULT_VECTOR {
            assert_eq!(t.entry(v), None);
        }
    }
}

#[test]
fn init_builds_the_kernel_table() {
    let t = init();
    assert_eq!(t.entry(BREAKPOINT_VECTOR).unwrap().handler, HandlerKind::Breakpoint);
    assert_eq!(t.entry(DOUBLE_FAULT_VECTOR).unwrap().stack_index, Some(0));
    assert_eq!(t.entry(14), None);
}

#[test]
fn stack_index_needs_a_registered_vector() {
    let mut b = TableBuilder::new();
    assert!(!b.set_stack_index(13, 2));
    b.set_handler(13, HandlerKind::DoubleFault);
    assert!(b.set_stack_index(13, 2));
    let t = b.install();
    assert_eq!(t.entry(13), Some(Entry { handler: HandlerKind::DoubleFault, stack_index: Some(2) }));
    assert_eq!(t.entry(12), None);
}

#[test]
fn breakpoint_reports_and_resumes() {
    assert_eq!(outcome(HandlerKind::Breakpoint), TrapOutcome::Resume);
    let color = ColorCode::new(Color::White, Color::Black);
    let mut w = writer(color);
    assert_eq!(breakpoint_handler(&mut w), TrapOutcome::Resume);
    assert_eq!(w.col_pos(), 0);
    let text = row_text(&w, VGA_SIZE_H - 2);
    assert_eq!(text.trim_end(), BREAKPOINT_MESSAGE.trim_end());
    assert_eq!(w.read_char(VGA_SIZE_H - 2, 0), Character { ascii: b'E', color });
}

#[test]
fn breakpoint_during_a_write_keeps_both_messages_whole() {
    let color = ColorCode::new(Color::White, Color::Black);
    let mut w = writer(color);
    w.write_string("Yeah!\n");
    breakpoint_handler(&mut w);
    assert_eq!(row_text(&w, VGA_SIZE_H - 3).trim_end(), "Yeah!");
    assert_eq!(row_text(&w, VGA_SIZE_H - 2).trim_end(), "Exception: BREAKPOINT");
}

#[test]
fn double_fault_reports_and_halts() {
    assert_eq!(outcome(HandlerKind::DoubleFault), TrapOutcome::Halt);
    let mut w = writer(ColorCode::new(Color::RedLight, Color::Black));
    assert_eq!(double_fault_handler(&mut w, "frame"), TrapOutcome::Halt);
    assert_eq!(row_text(&w, VGA_SIZE_H - 2).trim_end(), "Exception: DOUBLE FAULT");
    assert_eq!(row_text(&w, VGA_SIZE_H - 1).trim_end(), "frame");
    assert_eq!(w.col_pos(), 5);
}
