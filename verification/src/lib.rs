pub mod command;
pub mod hidpp;
pub mod tasks;
pub mod usb_desc;
pub mod uart;
