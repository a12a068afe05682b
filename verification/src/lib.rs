//! Memory-management core of a freestanding kernel: a firmware memory map is
//! normalized into contiguous blocks, a bitmap-backed physical page allocator
//! is bootstrapped inside the memory it manages, and a page-granular heap
//! shim, an interrupt-safe lock and the surrounding boot data structures are
//! modelled and verified around it.

pub mod cpuid;
pub mod drivers;
pub mod efi;
pub mod memory_map;
pub mod font;
pub mod framebuffer;
pub mod gdt;
pub mod idt;
pub mod global_alloc;
pub mod interrupt_safe_mutex;
pub mod kernel;
pub mod page_allocator;
pub mod screen;
pub mod text_writer;
