use rp2350_hid_bridge::usb_desc::{
    G102_LIGHTSYNC_PRODUCT_ID, HIDPP_LONG_REPORT_ID, HIDPP_LONG_REPORT_PAYLOAD_LEN,
    HIDPP_LONG_REPORT_TOTAL_LEN, HIDPP_REPORT_DESCRIPTOR, HIDPP_SHORT_REPORT_ID,
    HIDPP_SHORT_REPORT_PAYLOAD_LEN, HIDPP_SHORT_REPORT_TOTAL_LEN, LOGITECH_VENDOR_ID,
    MANUFACTURER, PRODUCT,
};

#[test]
fn exposes_g102_usb_identity() {
    assert_eq!(LOGITECH_VENDOR_ID, 0x046d);
    assert_eq!(G102_LIGHTSYNC_PRODUCT_ID, 0xc092);
    assert_eq!(MANUFACTURER, "Logitech");
    assert_eq!(PRODUCT, "G102 LIGHTSYNC Gaming Mouse");
}

#[test]
fn hidpp_descriptor_exposes_short_and_long_reports() {
    assert!(HIDPP_REPORT_DESCRIPTOR
        .windows(3)
        .any(|item| item == [0x06, 0x00, 0xff]));
    assert!(HIDPP_REPORT_DESCRIPTOR
        .windows(2)
        .any(|item| item == [0x85, HIDPP_SHORT_REPORT_ID]));
    assert!(HIDPP_REPORT_DESCRIPTOR
        .windows(2)
        .any(|item| item == [0x95, HIDPP_SHORT_REPORT_PAYLOAD_LEN]));
    assert!(HIDPP_REPORT_DESCRIPTOR
        .windows(2)
        .any(|item| item == [0x85, HIDPP_LONG_REPORT_ID]));
    assert!(HIDPP_REPORT_DESCRIPTOR
        .windows(2)
        .any(|item| item == [0x95, HIDPP_LONG_REPORT_PAYLOAD_LEN]));
    assert_eq!(HIDPP_REPORT_DESCRIPTOR.last(), Some(&0xc0));
}

#[test]
fn hidpp_report_lengths_count_the_id_byte() {
    assert_eq!(HIDPP_SHORT_REPORT_TOTAL_LEN, 7);
    assert_eq!(HIDPP_LONG_REPORT_TOTAL_LEN, 20);
    assert_eq!(HIDPP_REPORT_DESCRIPTOR.len(), 55);
}
