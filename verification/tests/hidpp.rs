use rp2350_hid_bridge::hidpp::{HidProtocolMode, HidppRequestHandler, OutResponse, ReportId};

#[test]
fn new_handler_reads_zeroed_reports() {
    let mut h = HidppRequestHandler::new();
    let mut buf = [0xaau8; 8];
    assert_eq!(h.get_report(ReportId::In(0x10), &mut buf), Some(6));
    assert_eq!(buf, [0, 0, 0, 0, 0, 0, 0xaa, 0xaa]);
    let mut long = [0xaau8; 19];
    assert_eq!(h.get_report(ReportId::Feature(0x11), &mut long), Some(19));
    assert_eq!(long, [0u8; 19]);
    assert_eq!(h.get_idle_ms(None), Some(u32::MAX));
}

#[test]
fn short_report_reads_back_what_was_written() {
    let mut h = HidppRequestHandler::default();
    assert_eq!(h.set_report(ReportId::Out(0x10), &[1, 2, 3]), OutResponse::Accepted);
    let mut buf = [9u8; 6];
    assert_eq!(h.get_report(ReportId::In(0x10), &mut buf), Some(6));
    assert_eq!(buf, [1, 2, 3, 0, 0, 0]);
    assert_eq!(
        h.set_report(ReportId::Feature(0x10), &[1, 2, 3, 4, 5, 6, 7, 8]),
        OutResponse::Accepted
    );
    assert_eq!(h.get_report(ReportId::Feature(0x10), &mut buf), Some(6));
    assert_eq!(buf, [1, 2, 3, 4, 5, 6]);
}

#[test]
fn long_report_reads_back_and_leaves_short_alone() {
    let mut h = HidppRequestHandler::new();
    h.set_report(ReportId::Out(0x10), &[7]);
    let data: Vec<u8> = (1..=25).collect();
    assert_eq!(h.set_report(ReportId::Out(0x11), &data), OutResponse::Accepted);
    let mut buf = [0u8; 20];
    assert_eq!(h.get_report(ReportId::In(0x11), &mut buf), Some(19));
    assert_eq!(&buf[..19], &data[..19]);
    assert_eq!(buf[19], 0);
    let mut short = [0u8; 6];
    assert_eq!(h.get_report(ReportId::In(0x10), &mut short), Some(6));
    assert_eq!(short, [7, 0, 0, 0, 0, 0]);
}

#[test]
fn too_small_buffer_or_unknown_id_reads_nothing() {
    let mut h = HidppRequestHandler::new();
    h.set_report(ReportId::Out(0x11), &[5; 19]);
    let mut buf = [3u8; 18];
    assert_eq!(h.get_report(ReportId::In(0x11), &mut buf), None);
    assert_eq!(buf, [3u8; 18]);
    let mut buf = [3u8; 32];
    assert_eq!(h.get_report(ReportId::In(0x12), &mut buf), None);
    assert_eq!(h.get_report(ReportId::Out(0x10), &mut buf), None);
    assert_eq!(buf, [3u8; 32]);
}

#[test]
fn writes_to_other_reports_are_rejected() {
    let mut h = HidppRequestHandler::new();
    h.set_report(ReportId::Out(0x10), &[1, 1, 1]);
    assert_eq!(h.set_report(ReportId::Out(0x12), &[2, 2]), OutResponse::Rejected);
    assert_eq!(h.set_report(ReportId::In(0x10), &[2, 2]), OutResponse::Rejected);
    let mut buf = [0u8; 6];
    h.get_report(ReportId::In(0x10), &mut buf);
    assert_eq!(buf, [1, 1, 1, 0, 0, 0]);
}

#[test]
fn protocol_and_idle_rate() {
    let mut h = HidppRequestHandler::new();
    assert_eq!(h.get_protocol(), HidProtocolMode::Report);
    assert_eq!(h.set_protocol(HidProtocolMode::Report), OutResponse::Accepted);
    assert_eq!(h.set_protocol(HidProtocolMode::Boot), OutResponse::Rejected);
    assert_eq!(h.get_protocol(), HidProtocolMode::Report);
    h.set_idle_ms(Some(ReportId::In(0x10)), 40);
    assert_eq!(h.get_idle_ms(None), Some(40));
    assert_eq!(h.get_idle_ms(Some(ReportId::Feature(0x11))), Some(40));
}
