pub mod color;
pub mod screen;
pub mod vga_buffer;
