use vstd::prelude::*;

verus! {

pub const LOGITECH_VENDOR_ID: u16 = 0x046d;

pub const G102_LIGHTSYNC_PRODUCT_ID: u16 = 0xc092;

pub const MANUFACTURER: &'static str = "Logitech";

pub const PRODUCT: &'static str = "G102 LIGHTSYNC Gaming Mouse";

pub const SERIAL_NUMBER: &'static str = "RP2350-G102-001";

pub const MAX_POWER_MA: u16 = 100;

pub const HID_POLL_MS: u8 = 1;

pub const HIDPP_SHORT_REPORT_ID: u8 = 0x10;

pub const HIDPP_LONG_REPORT_ID: u8 = 0x11;

pub const HIDPP_SHORT_REPORT_PAYLOAD_LEN: u8 = 0x06;

pub const HIDPP_LONG_REPORT_PAYLOAD_LEN: u8 = 0x13;

pub const HIDPP_SHORT_REPORT_TOTAL_LEN: usize = 1 + HIDPP_SHORT_REPORT_PAYLOAD_LEN as usize;

pub const HIDPP_LONG_REPORT_TOTAL_LEN: usize = 1 + HIDPP_LONG_REPORT_PAYLOAD_LEN as usize;

/// Vendor-defined HID report descriptor with a short (0x10, 6-byte payload)
/// and a long (0x11, 19-byte payload) report, each as input, output and feature.
pub const HIDPP_REPORT_DESCRIPTOR: [u8; 55] = [
    0x06, 0x00, 0xff, // Usage Page (Vendor Defined 0xff00)
    0x09, 0x01, // Usage (0x01)
    0xa1, 0x01, // Collection (Application)
    0x15, 0x00, // Logical Minimum (0)
    0x26, 0xff, 0x00, // Logical Maximum (255)
    0x75, 0x08, // Report Size (8 bits)
    0x85, HIDPP_SHORT_REPORT_ID, // Report ID 0x10
    0x09, HIDPP_SHORT_REPORT_ID, // Usage
    0x95, HIDPP_SHORT_REPORT_PAYLOAD_LEN, // Report Count (6 bytes payload)
    0x81, 0x02, // Input (Data, Variable, Absolute)
    0x09, HIDPP_SHORT_REPORT_ID, // Usage
    0x95, HIDPP_SHORT_REPORT_PAYLOAD_LEN, // Report Count (6 bytes payload)
    0x91, 0x02, // Output (Data, Variable, Absolute)
    0x09, HIDPP_SHORT_REPORT_ID, // Usage
    0x95, HIDPP_SHORT_REPORT_PAYLOAD_LEN, // Report Count (6 bytes payload)
    0xb1, 0x02, // Feature (Data, Variable, Absolute)
    0x85, HIDPP_LONG_REPORT_ID, // Report ID 0x11
    0x09, HIDPP_LONG_REPORT_ID, // Usage
    0x95, HIDPP_LONG_REPORT_PAYLOAD_LEN, // Report Count (19 bytes payload)
    0x81, 0x02, // Input (Data, Variable, Absolute)
    0x09, HIDPP_LONG_REPORT_ID, // Usage
    0x95, HIDPP_LONG_REPORT_PAYLOAD_LEN, // Report Count (19 bytes payload)
    0x91, 0x02, // Output (Data, Variable, Absolute)
    0x09, HIDPP_LONG_REPORT_ID, // Usage
    0x95, HIDPP_LONG_REPORT_PAYLOAD_LEN, // Report Count (19 bytes payload)
    0xb1, 0x02, // Feature (Data, Variable, Absolute)
    0xc0, // End Collection
];

} // verus!
