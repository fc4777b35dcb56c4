//! Early bring-up pieces of a small kernel: the boot-protocol header the
//! loader scans for, and the text-mode frame-buffer writer that is the
//! kernel's only diagnostic output channel.

pub mod multiboot2;
pub mod vga_buffer;
