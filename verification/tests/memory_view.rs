use ultimate64_manager::memory_editor::{
    ascii_column_text, byte_cell_text, chunk_failure_text, plan_chunks, byte_tooltip_text, current_value, row_address, DisplayMode,
    MemoryEditor,
};

#[test]
fn byte_cells_per_mode() {
    assert_eq!(byte_cell_text(DisplayMode::Hex, 0x0A), "0A");
    assert_eq!(byte_cell_text(DisplayMode::Hex, 0xFF), "FF");
    assert_eq!(byte_cell_text(DisplayMode::Decimal, 7), "  7");
    assert_eq!(byte_cell_text(DisplayMode::Decimal, 42), " 42");
    assert_eq!(byte_cell_text(DisplayMode::Decimal, 255), "255");
    assert_eq!(byte_cell_text(DisplayMode::Binary, 5), "00000101");
    assert_eq!(byte_cell_text(DisplayMode::Binary, 0x80), "10000000");
    assert_eq!(byte_cell_text(DisplayMode::Ascii, b'A'), " A ");
    assert_eq!(byte_cell_text(DisplayMode::Ascii, 0), " . ");
}

#[test]
fn ascii_column_and_rows() {
    assert_eq!(ascii_column_text(&[72, 105, 0, 127, 126, 32]), "Hi..~ ");
    assert_eq!(row_address(0xC000, 2), 0xC020);
    assert_eq!(row_address(0xFFF8, 1), 0x0008);
    assert_eq!(row_address(0x1_0010, 0), 0x0010);
}

#[test]
fn byte_texts() {
    assert_eq!(byte_tooltip_text(0x0400, 65), "$0400: 65 ('A')");
    assert_eq!(byte_tooltip_text(0xD020, 14), "$D020: 14 (non-printable)");
    assert_eq!(current_value(0x41), "$41 (65) 'A'");
    assert_eq!(current_value(0x00), "$00 (0) '.'");
}

#[test]
fn memory_header_line() {
    let mut e = MemoryEditor::new();
    assert_eq!(e.memory_header_text(), None);
    e.current_address = 0x0400;
    e.memory_data = Some(vec![0u8; 256]);
    assert_eq!(e.memory_header_text().as_deref(), Some("Memory at $0400 — 256 bytes"));
    e.watch_active = true;
    assert_eq!(e.memory_header_text().as_deref(), Some("Memory at $0400 — 256 bytes 👁 LIVE"));
}

#[test]
fn writes_are_planned_in_chunks() {
    assert_eq!(
        plan_chunks(0xC000, 600),
        vec![(0xC000, 0, 256), (0xC100, 256, 256), (0xC200, 512, 88)]
    );
    assert_eq!(plan_chunks(0xFF80, 300), vec![(0xFF80, 0, 256), (0x0080, 256, 44)]);
    assert_eq!(plan_chunks(0x1000, 256), vec![(0x1000, 0, 256)]);
    assert!(plan_chunks(0x1000, 0).is_empty());
    assert_eq!(chunk_failure_text(true, 0xC000, "timeout"), "Fill failed at $C000: timeout");
    assert_eq!(chunk_failure_text(false, 0x0801, "refused"), "Write failed at $0801: refused");
}

#[test]
fn controls_follow_the_state() {
    let mut e = MemoryEditor::new();
    let c = e.controls();
    assert_eq!(c.address_prefix, "Address: $");
    assert!(c.can_read && !c.can_find && !c.can_save_dump && !c.can_undo && !c.can_watch);
    assert_eq!(c.undo_redo_text, "(0 / 0)");
    assert_eq!(c.watch_label, "👁 Watch");
    assert_eq!(c.flash_label, "Flash Info");
    assert_eq!(c.pending_load_line, None);
    e.search_input = "A9".to_string();
    e.memory_data = Some(vec![0; 4]);
    e.pending_load_data = Some(vec![1, 2, 3]);
    e.current_address = 0xC000;
    e.watch_active = true;
    e.is_loading = true;
    let c = e.controls();
    assert!(c.can_find && !c.can_read && !c.can_save_dump && !c.can_write_dump && c.can_watch);
    assert_eq!(c.watch_label, "⏹ Stop Watch");
    assert_eq!(c.pending_load_line.as_deref(), Some("📁 3 bytes loaded, ready to write to $C000"));
}
