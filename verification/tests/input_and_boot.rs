//! The input decoders, the lock, the heap shim and the smaller boot
//! structures.

use bootmem::drivers::ps2_keyboard::{Key, KeyState, KeyboardState};
use bootmem::drivers::ps2_mouse::{MouseButtonState, MouseState};
use bootmem::efi::{
    framebuffer_format_for, memory_map_step, Error, GraphicsPixelFormat, MemoryMapAction,
};
use bootmem::framebuffer::FrameBufferFormat;
use bootmem::global_alloc::{heap_alloc, heap_dealloc};
use bootmem::idt::{Entry, InterruptType};
use bootmem::interrupt_safe_mutex::{interrupts_enabled_in_flags, InterruptSafeMutex};
use bootmem::kernel::efi::{Guid, Status};
use bootmem::kernel::idt::DescriptorEntry;
use bootmem::kernel::keyboard::{byte_to_keycode, keyboard_step, Action, Keycode, Side, State};
use bootmem::page_allocator::{Block, PageAllocator, PAGE_SIZE};

#[test]
fn keyboard_single_byte_scancodes() {
    let mut keyboard = KeyboardState::new();
    keyboard.process_scancode(0x1E);
    let event = keyboard.next_event().unwrap();
    assert_eq!(event.key, Key::A);
    assert_eq!(event.state, KeyState::Pressed);
    keyboard.process_scancode(0x9E);
    let event = keyboard.next_event().unwrap();
    assert_eq!(event.key, Key::A);
    assert_eq!(event.state, KeyState::Released);
    assert!(keyboard.next_event().is_none());
}

#[test]
fn keyboard_extended_sequence_buffers_then_decodes() {
    // this fails if the buffer wrappers hand their arguments back unchanged:
    // the first byte alone must produce no event, the pair must
    let mut keyboard = KeyboardState::new();
    keyboard.process_scancode(0xE0);
    assert!(keyboard.next_event().is_none());
    keyboard.process_scancode(0x48);
    let event = keyboard.next_event().unwrap();
    assert_eq!(event.key, Key::CursorUp);
    assert_eq!(event.state, KeyState::Pressed);
}

#[test]
fn keyboard_acknowledge_is_dropped() {
    let mut keyboard = KeyboardState::new();
    keyboard.process_scancode(0xFA);
    assert!(keyboard.next_event().is_none());
}

#[test]
fn keyboard_unknown_bytes_are_preserved() {
    let mut keyboard = KeyboardState::new();
    keyboard.process_scancode(0x7F);
    let event = keyboard.next_event().unwrap();
    assert_eq!(event.key, Key::Unknown1([0x7F]));
    let mut keyboard = KeyboardState::new();
    keyboard.process_scancode(0xE0);
    keyboard.process_scancode(0x70);
    let event = keyboard.next_event().unwrap();
    assert_eq!(event.key, Key::Unknown2([0xE0, 0x70]));
    let mut keyboard = KeyboardState::new();
    keyboard.process_scancode(0xE1);
    keyboard.process_scancode(0x1D);
    assert!(keyboard.next_event().is_none());
    keyboard.process_scancode(0x45);
    let event = keyboard.next_event().unwrap();
    assert_eq!(event.key, Key::Unknown3([0xE1, 0x1D, 0x45]));
}

#[test]
fn mouse_assembles_three_byte_packets() {
    let mut mouse = MouseState::new();
    // acknowledge between packets is dropped
    mouse.process_byte(0xFA);
    assert!(mouse.next_event().is_none());
    // flags: left and middle pressed; x = +16, y = -3
    mouse.process_byte(0b0000_0101);
    mouse.process_byte(16);
    assert!(mouse.next_event().is_none());
    mouse.process_byte(0xFD);
    let event = mouse.next_event().unwrap();
    assert_eq!(event.mouse_buttons.left, MouseButtonState::Pressed);
    assert_eq!(event.mouse_buttons.right, MouseButtonState::Released);
    assert_eq!(event.mouse_buttons.middle, MouseButtonState::Pressed);
    assert_eq!(event.x_offset, 16);
    assert_eq!(event.y_offset, -3);
}

#[test]
fn kernel_byte_to_keycode_table() {
    assert_eq!(byte_to_keycode(0x00), None);
    assert_eq!(byte_to_keycode(0xD9), None);
    assert_eq!(byte_to_keycode(0xE0), None);
    assert_eq!(byte_to_keycode(0x01), Some(Keycode::Escape));
    assert_eq!(byte_to_keycode(0x1D), Some(Keycode::Control(Side::Left)));
    assert_eq!(byte_to_keycode(0x36), Some(Keycode::Shift(Side::Right)));
    assert_eq!(
        byte_to_keycode(0x4E),
        Some(Keycode::Keypad(bootmem::kernel::keyboard::Keypad::Plus))
    );
    // the release of escape maps to the same key
    assert_eq!(byte_to_keycode(0x81), Some(Keycode::Escape));
    assert_eq!(byte_to_keycode(0x54), Some(Keycode::Unknown));
}

#[test]
fn kernel_keyboard_step_emits_events() {
    let (state, event) = keyboard_step(State::Idle, 0x10);
    assert_eq!(state, State::Idle);
    let event = event.unwrap();
    assert_eq!(event.key, Keycode::Q);
    assert_eq!(event.action, Action::Pressed);

    let (state, event) = keyboard_step(State::Idle, 0x90);
    assert_eq!(state, State::Idle);
    assert_eq!(event.unwrap().action, Action::Released);

    let (state, event) = keyboard_step(State::Idle, 0xE0);
    assert_eq!(state, State::FirstByteOfMultibyteScancode(0xE0));
    assert!(event.is_none());

    let (state, event) = keyboard_step(State::Idle, 0x00);
    assert_eq!(state, State::Idle);
    assert!(event.is_none());
}

#[test]
fn idt_entry_splits_handler_address() {
    let mut entry = Entry {
        offset0: 0,
        selector: 0,
        ist: 0,
        types_attributes: 0,
        offset1: 0,
        offset2: 0,
        reserved: 0,
    };
    entry.set_handler_(0x1234_5678_9ABC_DEF0, InterruptType::Interrupt);
    assert_eq!(entry.offset0, 0xDEF0);
    assert_eq!(entry.offset1, 0x9ABC);
    assert_eq!(entry.offset2, 0x1234_5678);
    assert_eq!(entry.selector, 8);
    assert_eq!(entry.types_attributes, 0b1000_1110);
    entry.set_handler_(0x1000, InterruptType::Trap);
    assert_eq!(entry.types_attributes, 0b1000_1111);
}

#[test]
fn kernel_descriptor_entry_offset_round_trip() {
    let mut entry = DescriptorEntry {
        offset0: 0,
        selector: 0,
        ist: 0,
        type_attr: 0,
        offset1: 0,
        offset2: 0,
        ignore: 0,
    };
    entry.set_offset(0xFEDC_BA98_7654_3210);
    assert_eq!(entry.offset0, 0x3210);
    assert_eq!(entry.offset1, 0x7654);
    assert_eq!(entry.offset2, 0xFEDC_BA98);
    assert_eq!(entry.get_offset(), 0xFEDC_BA98_7654_3210);
}

#[test]
fn kernel_guid_packs_wire_bytes() {
    let guid = Guid::new(
        0x9042a9de, 0x23dc, 0x4a38, 0x96, 0xfb, 0x7a, 0xde, 0xd0, 0x80, 0x51, 0x6a,
    );
    assert_eq!(
        guid.0,
        [0xde, 0xa9, 0x42, 0x90, 0xdc, 0x23, 0x38, 0x4a, 0x96, 0xfb, 0x7a, 0xde, 0xd0, 0x80,
            0x51, 0x6a]
    );
}

#[test]
fn kernel_status_error_bit() {
    assert!(!Status::success().is_error());
    let error = Status::new_error(5);
    assert!(error.is_error());
    assert_eq!(error.0, Status::error_mask() + 5);
}

#[test]
fn mutex_lock_cycle() {
    let mut lock = InterruptSafeMutex::new(41);
    assert_eq!(*lock.get_mut(), 41);
    lock.lock();
    let previous = lock.store(42);
    assert_eq!(previous, 41);
    lock.unlock();
    assert_eq!(lock.into_inner(), 42);
}

#[test]
fn interrupt_flag_bit() {
    assert!(interrupts_enabled_in_flags(1 << 9));
    assert!(!interrupts_enabled_in_flags(0));
    assert!(!interrupts_enabled_in_flags(!0u64 ^ (1 << 9)));
}

#[test]
fn heap_shim_allocates_pages_and_frees() {
    let mut pa = PageAllocator {
        blocks: vec![Block { start_address: 0x50000, page_count: 8, bitmap_start: 0 }],
        bitmap: vec![0u8],
    };
    let a = heap_alloc(&mut pa, 16, 100);
    assert_eq!(a, 0x50000);
    assert_eq!(pa.allocated_pages(), 1);
    // exhaustion reports the null address
    let b = heap_alloc(&mut pa, 1, 8 * PAGE_SIZE);
    assert_eq!(b, 0);
    heap_dealloc(&mut pa, a, 100);
    assert_eq!(pa.allocated_pages(), 0);
    // the zero-size quirk returns the alignment itself
    assert_eq!(heap_alloc(&mut pa, 64, 0), 64);
}

#[test]
fn memory_map_protocol_steps() {
    let short = Err(Error::buffer_too_small());
    assert_eq!(
        memory_map_step(false, 3 * PAGE_SIZE + 1, short),
        MemoryMapAction::Retry { free_old: false, allocate_pages: 4 }
    );
    assert_eq!(
        memory_map_step(true, PAGE_SIZE, short),
        MemoryMapAction::Retry { free_old: true, allocate_pages: 1 }
    );
    assert_eq!(memory_map_step(true, 0, Ok(())), MemoryMapAction::Done);
    let failure = Error::unsupported();
    assert_eq!(memory_map_step(true, 0, Err(failure)), MemoryMapAction::Fail(failure));
}

#[test]
fn pixel_format_decision() {
    assert_eq!(
        framebuffer_format_for(GraphicsPixelFormat::RedGreenBlueReserved8BitPerColor),
        Ok(FrameBufferFormat::Rgb)
    );
    assert_eq!(
        framebuffer_format_for(GraphicsPixelFormat::BlueGreenRedReserved8BitPerColor),
        Ok(FrameBufferFormat::Bgr)
    );
    assert_eq!(
        framebuffer_format_for(GraphicsPixelFormat::BitMask),
        Err(Error::unsupported())
    );
    assert_eq!(
        framebuffer_format_for(GraphicsPixelFormat::BltOnly),
        Err(Error::unsupported())
    );
}
