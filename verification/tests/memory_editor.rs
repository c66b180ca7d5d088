use ultimate64_manager::memory_editor::{
    AddressSpace, Bookmark, BookmarkSpace, DisplayMode, MemoryEditor, MemoryLocation, RawWrite,
};

fn editor_with(data: &[u8]) -> MemoryEditor {
    let mut e = MemoryEditor::new();
    e.read_memory_complete(Ok(data.to_vec()));
    e
}

#[test]
fn new_editor_shows_screen_memory() {
    let e = MemoryEditor::new();
    assert_eq!(e.current_address, 0x0400);
    assert_eq!(e.display_length, 256);
    assert_eq!(e.address_input, "0400");
    assert_eq!(e.address_space, AddressSpace::C64Ram);
    assert_eq!(e.display_mode, DisplayMode::Hex);
}

#[test]
fn hex_search_finds_byte_patterns() {
    let mut e = editor_with(&[0xA9, 0x00, 0x8D, 0xA9, 0x00]);
    e.search_input = " a9 00 ".to_string();
    assert_eq!(e.perform_search(e.memory_data.as_ref().unwrap()), vec![0, 3]);
}

#[test]
fn text_search_ignores_case_of_the_data() {
    let mut e = editor_with(b"Hello HELLO hello");
    e.search_input = "HeLLo".to_string();
    assert_eq!(e.perform_search(e.memory_data.as_ref().unwrap()), vec![0, 6, 12]);
}

#[test]
fn odd_hex_digits_search_as_text() {
    let mut e = editor_with(b"xabcx");
    e.search_input = "abc".to_string();
    assert_eq!(e.perform_search(e.memory_data.as_ref().unwrap()), vec![1]);
}

#[test]
fn search_reports_matches_and_refuses_overlong_text() {
    let mut e = editor_with(&[0x00, 0xAB]);
    e.search_input = "ab".to_string();
    assert!(e.run_search_checked());
    assert_eq!(e.search_matches, vec![1]);
    assert_eq!(e.status_message.as_deref(), Some("Found 1 match(es)"));
    e.search_input = "zz".to_string();
    assert!(e.run_search_checked());
    assert_eq!(e.status_message.as_deref(), Some("Pattern not found"));
    e.search_input = "xyz".to_string();
    assert!(e.try_search(b"ab").is_none());
    assert!(!e.run_search_checked());
}

#[test]
fn address_input_keeps_hex_digits_only() {
    let mut e = MemoryEditor::new();
    e.address_input_changed("$d0-20xyz");
    assert_eq!(e.address_input, "D020");
    assert_eq!(e.current_address, 0xD020);
    e.address_input_changed("zz");
    assert_eq!(e.address_input, "");
    assert_eq!(e.current_address, 0xD020);
    e.address_space_changed(AddressSpace::Reu);
    e.address_input_changed("123456789");
    assert_eq!(e.address_input, "123456");
    assert_eq!(e.current_address, 0x123456);
    e.address_space_changed(AddressSpace::C64Ram);
    assert_eq!(e.address_input, "1234");
    assert_eq!(e.current_address, 0x1234);
}

#[test]
fn length_input_accepts_1_to_65535() {
    let mut e = MemoryEditor::new();
    e.length_input_changed("1a2");
    assert_eq!(e.length_input, "12");
    assert_eq!(e.display_length, 12);
    e.length_input_changed("0");
    assert_eq!(e.display_length, 12);
    e.length_input_changed("70000");
    assert_eq!(e.display_length, 12);
    e.length_input_changed("65535");
    assert_eq!(e.display_length, 65535);
}

#[test]
fn byte_edit_undo_redo() {
    let mut e = editor_with(&[1, 2, 3]);
    e.byte_clicked(1);
    assert_eq!(e.editing_byte.as_ref().unwrap().new_value_input, "2");
    e.write_byte_value_changed("2x55");
    assert_eq!(e.write_byte_confirm(true), Some((0x0401, 255, 1)));
    assert_eq!(e.status_message.as_deref(), Some("Writing $FF to $0401…"));
    e.write_byte_complete(Ok((1, 255)));
    assert_eq!(e.memory_data.as_deref(), Some(&[1, 255, 3][..]));
    assert_eq!(e.status_message.as_deref(), Some("Written $FF to $0401"));
    assert_eq!(e.undo(true), Some((0x0401, 2)));
    assert_eq!(e.memory_data.as_deref(), Some(&[1, 2, 3][..]));
    assert_eq!(e.status_message.as_deref(), Some("Undo: restored $02 at $0401"));
    assert_eq!(e.redo(true), Some((0x0401, 255)));
    assert_eq!(e.memory_data.as_deref(), Some(&[1, 255, 3][..]));
    assert_eq!(e.status_message.as_deref(), Some("Redo: wrote $FF to $0401"));
}

#[test]
fn undo_without_a_device_drops_the_entry() {
    let mut e = editor_with(&[1, 2, 3]);
    e.byte_clicked(0);
    e.write_byte_complete(Ok((0, 9)));
    assert_eq!(e.undo(false), None);
    assert!(e.undo_stack.is_empty());
    assert!(e.redo_stack.is_empty());
    assert_eq!(e.memory_data.as_deref(), Some(&[9, 2, 3][..]));
}

#[test]
fn an_out_of_range_byte_value_is_not_written() {
    let mut e = editor_with(&[1]);
    e.byte_clicked(0);
    e.write_byte_value_changed("256");
    assert_eq!(e.write_byte_confirm(true), None);
    assert!(e.editing_byte.is_none());
}

#[test]
fn reading_reports_its_size() {
    let e = editor_with(&[0; 16]);
    assert_eq!(e.status_message.as_deref(), Some("Read 16 bytes from $0400"));
    let mut e = MemoryEditor::new();
    assert_eq!(e.read_memory(true), Some((0x0400, 256)));
    assert_eq!(e.read_memory(false), None);
    assert_eq!(e.status_message.as_deref(), Some("Not connected to Ultimate64"));
}

#[test]
fn bookmarks_are_added_selected_and_deleted() {
    let mut e = MemoryEditor::new();
    e.add_bookmark();
    assert_eq!(e.bookmarks[0].label, "$0400");
    e.bookmark_label_input = "  screen ".to_string();
    e.add_bookmark();
    assert_eq!(e.bookmarks[1].label, "screen");
    assert_eq!(e.status_message.as_deref(), Some("Bookmark added (2 total)"));
    let bm = Bookmark { label: "reu".to_string(), address: 0x10, length: 8, space: BookmarkSpace::Reu };
    assert_eq!(e.select_bookmark(&bm, true), None);
    assert_eq!(e.address_input, "000010");
    assert_eq!(e.length_input, "8");
    assert_eq!(e.status_message.as_deref(), Some("Jumped to bookmark: reu"));
    e.delete_bookmark(0);
    assert_eq!(e.status_message.as_deref(), Some("Bookmark '$0400' removed"));
    assert_eq!(e.bookmarks.len(), 1);
}

#[test]
fn locations_jump_and_read() {
    let mut e = MemoryEditor::new();
    let loc = MemoryLocation {
        name: "VIC Colours".to_string(),
        address: 0xD020,
        length: 0x0F,
        description: "Border + background colour regs".to_string(),
    };
    assert_eq!(e.location_selected(&loc, false), None);
    assert_eq!(e.address_input, "D020");
    assert_eq!(e.length_input, "15");
    assert_eq!(e.status_message.as_deref(), Some("Selected: Border + background colour regs"));
    assert_eq!(e.location_selected(&loc, true), Some((0xD020, 15)));
}

#[test]
fn fill_needs_a_hex_byte() {
    let mut e = MemoryEditor::new();
    e.fill_value_changed("g7f");
    assert_eq!(e.fill_value_input, "7F");
    assert_eq!(e.fill_memory(true), Some((0x0400, 256, 0x7F)));
    assert_eq!(e.status_message.as_deref(), Some("Filling 256 bytes with $7F…"));
    e.fill_value_input = String::new();
    assert_eq!(e.fill_memory(true), None);
}

#[test]
fn flash_pages_are_stored_by_index() {
    let mut e = MemoryEditor::new();
    e.flash_info_complete(Ok((4096, 512)));
    assert_eq!(e.status_message.as_deref(), Some("Flash: 512 pages × 4096 bytes = 2048 KB"));
    e.flash_page_complete(Ok((2, vec![1, 2])));
    let fi = e.flash_info.as_ref().unwrap();
    assert_eq!(fi.pages.len(), 3);
    assert_eq!(fi.pages[2], vec![1, 2]);
    assert!(fi.pages[0].is_empty());
    assert_eq!(e.status_message.as_deref(), Some("Flash page 2 read (2 bytes)"));
}

#[test]
fn watch_toggles_and_clearing_forgets_the_bytes() {
    let mut e = editor_with(&[1]);
    e.toggle_watch();
    assert_eq!(e.status_message.as_deref(), Some("Watch mode ON — refreshing every 500 ms"));
    assert_eq!(e.watch_tick(true), Some((0x0400, 256)));
    e.clear_memory_view();
    assert!(e.memory_data.is_none());
    assert!(!e.watch_active);
}

#[test]
fn display_texts() {
    let loc = MemoryLocation {
        name: "Screen RAM".to_string(),
        address: 0x0400,
        length: 1000,
        description: String::new(),
    };
    assert_eq!(loc.display_text(), "Screen RAM ($0400)");
    assert_eq!(AddressSpace::C64Ram.display_text(), "C64 RAM");
    assert_eq!(AddressSpace::Reu.display_text(), "REU");
    assert_eq!(DisplayMode::Decimal.display_text(), "DEC");
    assert_eq!(DisplayMode::Binary.display_text(), "BIN");
    let bm = Bookmark { label: "buf".to_string(), address: 0x12345, length: 16, space: BookmarkSpace::Reu };
    assert_eq!(bm.display_text(), "buf (REU:$12345)");
    let bm = Bookmark { label: "zp".to_string(), address: 0x2, length: 16, space: BookmarkSpace::C64Ram };
    assert_eq!(bm.display_text(), "zp ($0002)");
}

#[test]
fn dumps_are_named_loaded_and_written() {
    let mut e = MemoryEditor::new();
    e.memory_data = None;
    assert_eq!(e.save_dump(), None);
    assert_eq!(e.status_message.as_deref(), Some("No memory data to save. Read memory first."));
    let mut e = editor_with(&[1, 2, 3]);
    e.current_address = 0xC000;
    e.display_length = 256;
    assert_eq!(e.save_dump().as_deref(), Some("memdump_C000_C0FF.bin"));
    assert_eq!(e.dump_bytes(), Some(vec![1, 2, 3]));
    e.load_dump_complete(Ok(vec![9; 10]));
    assert_eq!(
        e.status_message.as_deref(),
        Some("Loaded 10 bytes — click 'Write to Device' to write to $C000")
    );
    assert_eq!(e.write_dump_to_device(true), Some((0xC000, vec![9; 10])));
    assert_eq!(e.status_message.as_deref(), Some("Writing 10 bytes to $C000…"));
    assert!(e.pending_load_data.is_none());
    assert_eq!(e.write_dump_to_device(true), None);
    assert_eq!(e.status_message.as_deref(), Some("No data to write or not connected"));
    assert_eq!(e.write_dump_complete(Err("busy".to_string()), true), None);
    assert_eq!(e.status_message.as_deref(), Some("Write failed: busy"));
    assert_eq!(e.write_dump_complete(Ok(()), true), Some((0xC000, 256)));
}

#[test]
fn raw_writes_and_kernal_and_flash_status() {
    let mut e = MemoryEditor::new();
    e.raw_write_started(RawWrite::Dma, 0x0801, 12);
    assert_eq!(e.status_message.as_deref(), Some("DMA-writing 12 bytes to $0801…"));
    e.raw_write_started(RawWrite::Reu, 0x10000, 3);
    assert_eq!(e.status_message.as_deref(), Some("Writing 3 bytes to REU $010000…"));
    e.raw_write_complete(RawWrite::DmaJump, Err("refused".to_string()));
    assert_eq!(e.status_message.as_deref(), Some("DMA jump failed: refused"));
    assert!(!e.is_loading);
    assert!(!e.kernal_write_path_selected(Some("k.bin".to_string()), false));
    assert!(e.kernal_write_path_selected(Some("k.bin".to_string()), true));
    assert_eq!(e.kernal_pending_path.as_deref(), Some("k.bin"));
    e.kernal_write_complete(Ok(()));
    assert_eq!(e.status_message.as_deref(), Some("Kernal ROM replaced successfully"));
    e.flash_page_changed("1a2 3");
    assert_eq!(e.flash_page_input, "123");
    assert!(e.read_flash_page(7, true));
    assert_eq!(e.status_message.as_deref(), Some("Reading flash page 7…"));
    assert!(!e.read_flash_info(false));
}

#[test]
fn fill_completion_rereads() {
    let mut e = editor_with(&[0; 4]);
    assert_eq!(e.fill_complete(Err("x".to_string()), true), None);
    assert_eq!(e.status_message.as_deref(), Some("Fill failed: x"));
    let addr = e.current_address as u16;
    assert_eq!(e.fill_complete(Ok(()), true), Some((addr, e.display_length)));
    assert_eq!(e.refresh_memory(false), None);
    assert_eq!(e.status_message.as_deref(), Some("Not connected to Ultimate64"));
}
