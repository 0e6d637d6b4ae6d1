use vstd::prelude::*;
use crate::usb_desc::{
    HIDPP_LONG_REPORT_ID, HIDPP_LONG_REPORT_PAYLOAD_LEN, HIDPP_LONG_REPORT_TOTAL_LEN,
    HIDPP_REPORT_DESCRIPTOR, HIDPP_SHORT_REPORT_ID, HIDPP_SHORT_REPORT_PAYLOAD_LEN,
    HIDPP_SHORT_REPORT_TOTAL_LEN,
};

verus! {

/// Which report a HID class request names, and in which direction.
#[derive(Clone, Copy, Debug, PartialEq, Eq, Structural)]
pub enum ReportId {
    In(u8),
    Out(u8),
    Feature(u8),
}

/// The answer to a HID class request that hands data to the device.
#[derive(Clone, Copy, Debug, PartialEq, Eq, Structural)]
pub enum OutResponse {
    Accepted,
    Rejected,
}

/// The HID protocol a host may ask the interface to speak.
#[derive(Clone, Copy, Debug, PartialEq, Eq, Structural)]
pub enum HidProtocolMode {
    Boot,
    Report,
}

/// Payload length of the short HID++ report.
pub open spec fn short_len() -> nat {
    6
}

/// Payload length of the long HID++ report.
pub open spec fn long_len() -> nat {
    19
}

/// The short HID++ report is read through these ids.
pub open spec fn reads_short(id: ReportId) -> bool {
    id == ReportId::In(HIDPP_SHORT_REPORT_ID) || id == ReportId::Feature(HIDPP_SHORT_REPORT_ID)
}

/// The long HID++ report is read through these ids.
pub open spec fn reads_long(id: ReportId) -> bool {
    id == ReportId::In(HIDPP_LONG_REPORT_ID) || id == ReportId::Feature(HIDPP_LONG_REPORT_ID)
}

/// The short HID++ report is written through these ids.
pub open spec fn writes_short(id: ReportId) -> bool {
    id == ReportId::Out(HIDPP_SHORT_REPORT_ID) || id == ReportId::Feature(HIDPP_SHORT_REPORT_ID)
}

/// The long HID++ report is written through these ids.
pub open spec fn writes_long(id: ReportId) -> bool {
    id == ReportId::Out(HIDPP_LONG_REPORT_ID) || id == ReportId::Feature(HIDPP_LONG_REPORT_ID)
}

/// What a report slot of `n` bytes holds after `data` was written to it:
/// the first `n` bytes of `data`, padded with zeros.
pub open spec fn stored_report(data: Seq<u8>, n: nat) -> Seq<u8> {
    Seq::new(n, |i: int| if i < data.len() { data[i] } else { 0u8 })
}

/// The payload that a read of `id` answers with, given the two stored
/// reports; `None` where `id` names no HID++ report that can be read.
pub open spec fn readable_report(short: Seq<u8>, long: Seq<u8>, id: ReportId) -> Option<Seq<u8>> {
    if reads_short(id) {
        Some(short)
    } else if reads_long(id) {
        Some(long)
    } else {
        None
    }
}

/// The short report after `data` was written through `id`.
pub open spec fn short_after_write(short: Seq<u8>, id: ReportId, data: Seq<u8>) -> Seq<u8> {
    if writes_short(id) {
        stored_report(data, short_len())
    } else {
        short
    }
}

/// The long report after `data` was written through `id`.
pub open spec fn long_after_write(long: Seq<u8>, id: ReportId, data: Seq<u8>) -> Seq<u8> {
    if !writes_short(id) && writes_long(id) {
        stored_report(data, long_len())
    } else {
        long
    }
}

/// The answer to a write through `id`.
pub open spec fn write_response(id: ReportId) -> OutResponse {
    if writes_short(id) || writes_long(id) {
        OutResponse::Accepted
    } else {
        OutResponse::Rejected
    }
}

/// What a read of `report` into a buffer that held `buf` gives back: the
/// report's length and the buffer with the report over its front, or `None`
/// and the buffer unchanged where the report does not fit.
pub open spec fn read_into(report: Seq<u8>, buf: Seq<u8>) -> (Option<usize>, Seq<u8>) {
    if buf.len() < report.len() {
        (None, buf)
    } else {
        (Some(report.len() as usize), report + buf.subrange(report.len() as int, buf.len() as int))
    }
}

/// The handler stores exactly the payload lengths that the report
/// descriptor declares for the two HID++ reports (its report-count items),
/// and a whole report is one id byte longer than its payload.
pub proof fn law_lengths_match_descriptor()
    ensures
        short_len() == HIDPP_SHORT_REPORT_PAYLOAD_LEN,
        long_len() == HIDPP_LONG_REPORT_PAYLOAD_LEN,
        HIDPP_SHORT_REPORT_TOTAL_LEN == short_len() + 1,
        HIDPP_LONG_REPORT_TOTAL_LEN == long_len() + 1,
        HIDPP_REPORT_DESCRIPTOR@[14] == 0x85 && HIDPP_REPORT_DESCRIPTOR@[15] == HIDPP_SHORT_REPORT_ID,
        HIDPP_REPORT_DESCRIPTOR@[18] == 0x95 && HIDPP_REPORT_DESCRIPTOR@[19] == short_len(),
        HIDPP_REPORT_DESCRIPTOR@[34] == 0x85 && HIDPP_REPORT_DESCRIPTOR@[35] == HIDPP_LONG_REPORT_ID,
        HIDPP_REPORT_DESCRIPTOR@[38] == 0x95 && HIDPP_REPORT_DESCRIPTOR@[39] == long_len(),
{
}

/// Which requests reach which HID++ report, stated id by id: a write
/// through Out(0x10) or Feature(0x10) is accepted and replaces the short
/// report with the written bytes (cut or zero-padded to 6), leaving the long
/// one; a write through Out(0x11) or Feature(0x11) is accepted and replaces
/// the long report (cut or zero-padded to 19), leaving the short one; every
/// other write is rejected and changes neither. A read through In(0x10) or
/// Feature(0x10) answers with the short report, through In(0x11) or
/// Feature(0x11) with the long one, and any other read answers nothing.
pub proof fn law_report_ids(short: Seq<u8>, long: Seq<u8>, id: ReportId, data: Seq<u8>)
    ensures
        (id == ReportId::Out(0x10) || id == ReportId::Feature(0x10)) ==> write_response(id)
            == OutResponse::Accepted && short_after_write(short, id, data) == Seq::new(
            6,
            |i: int| if i < data.len() { data[i] } else { 0u8 },
        ) && long_after_write(long, id, data) == long,
        (id == ReportId::Out(0x11) || id == ReportId::Feature(0x11)) ==> write_response(id)
            == OutResponse::Accepted && long_after_write(long, id, data) == Seq::new(
            19,
            |i: int| if i < data.len() { data[i] } else { 0u8 },
        ) && short_after_write(short, id, data) == short,
        !(id == ReportId::Out(0x10) || id == ReportId::Feature(0x10) || id == ReportId::Out(0x11)
            || id == ReportId::Feature(0x11)) ==> write_response(id) == OutResponse::Rejected
            && short_after_write(short, id, data) == short && long_after_write(long, id, data) == long,
        (id == ReportId::In(0x10) || id == ReportId::Feature(0x10)) ==> readable_report(short, long, id)
            == Some(short),
        (id == ReportId::In(0x11) || id == ReportId::Feature(0x11)) ==> readable_report(short, long, id)
            == Some(long),
        !(id == ReportId::In(0x10) || id == ReportId::Feature(0x10) || id == ReportId::In(0x11)
            || id == ReportId::Feature(0x11)) ==> readable_report(short, long, id) is None,
{
}

/// A stored report holds the first bytes of what was written, as many as
/// fit, and zeros after them.
pub proof fn law_stored_report(data: Seq<u8>, n: nat)
    ensures
        stored_report(data, n).len() == n,
        forall|i: int| 0 <= i < n && i < data.len() ==> #[trigger] stored_report(data, n)[i] == data[i],
        forall|i: int| data.len() <= i < n ==> #[trigger] stored_report(data, n)[i] == 0u8,
{
}

/// A read of a HID++ report answers with what the last accepted write to
/// that report stored, and a write to one report leaves what a read of the
/// other answers unchanged; where the buffer can hold the report, the read
/// gives its length and puts it at the buffer's front.
pub proof fn law_read_after_write(
    short: Seq<u8>,
    long: Seq<u8>,
    write_id: ReportId,
    read_id: ReportId,
    data: Seq<u8>,
    buf: Seq<u8>,
)
    ensures
        writes_short(write_id) && reads_short(read_id) ==> readable_report(
            short_after_write(short, write_id, data),
            long_after_write(long, write_id, data),
            read_id,
        ) == Some(stored_report(data, short_len())),
        writes_long(write_id) && reads_long(read_id) ==> readable_report(
            short_after_write(short, write_id, data),
            long_after_write(long, write_id, data),
            read_id,
        ) == Some(stored_report(data, long_len())),
        writes_short(write_id) && reads_long(read_id) ==> readable_report(
            short_after_write(short, write_id, data),
            long_after_write(long, write_id, data),
            read_id,
        ) == Some(long),
        writes_long(write_id) && reads_short(read_id) ==> readable_report(
            short_after_write(short, write_id, data),
            long_after_write(long, write_id, data),
            read_id,
        ) == Some(short),
        forall|report: Seq<u8>|
            report.len() <= buf.len() ==> #[trigger] read_into(report, buf).0 == Some(
                report.len() as usize,
            ) && read_into(report, buf).1.len() == buf.len() && read_into(report, buf).1.subrange(
                0,
                report.len() as int,
            ) == report,
        forall|report: Seq<u8>, i: int|
            report.len() <= i < buf.len() ==> #[trigger] read_into(report, buf).1[i] == buf[i],
        forall|report: Seq<u8>|
            report.len() > buf.len() ==> #[trigger] read_into(report, buf) == (None::<usize>, buf),
{
    assert forall|report: Seq<u8>| report.len() <= buf.len() implies #[trigger] read_into(
        report,
        buf,
    ).0 == Some(report.len() as usize) && read_into(report, buf).1.len() == buf.len() && read_into(
        report,
        buf,
    ).1.subrange(0, report.len() as int) == report by {
        assert(read_into(report, buf).1.subrange(0, report.len() as int) =~= report);
    }
}

/// A write that names no HID++ report is rejected and changes neither
/// report; one that names a report is accepted.
pub proof fn law_refused_write(short: Seq<u8>, long: Seq<u8>, id: ReportId, data: Seq<u8>)
    ensures
        write_response(id) == OutResponse::Rejected <==> !writes_short(id) && !writes_long(id),
        write_response(id) == OutResponse::Rejected ==> short_after_write(short, id, data) == short
            && long_after_write(long, id, data) == long,
{
}

/// Keeps the last short and long HID++ reports that the host wrote, and the
/// idle rate it set, for the vendor-defined HID interface.
pub struct HidppRequestHandler {
    short_report: [u8; 6],
    long_report: [u8; 19],
    idle_ms: u32,
}

impl HidppRequestHandler {
    /// The stored short report.
    pub closed spec fn short_payload(&self) -> Seq<u8> {
        self.short_report@
    }

    /// The stored long report.
    pub closed spec fn long_payload(&self) -> Seq<u8> {
        self.long_report@
    }

    /// The idle rate in milliseconds.
    pub closed spec fn idle(&self) -> u32 {
        self.idle_ms
    }

    /// The stored reports always have their fixed payload lengths.
    pub proof fn lemma_payload_lengths(&self)
        ensures
            self.short_payload().len() == short_len(),
            self.long_payload().len() == long_len(),
    {
    }

    /// A handler with both reports zeroed and no idle limit.
    pub fn new() -> (h: Self)
        ensures
            h.short_payload() == Seq::new(short_len(), |i: int| 0u8),
            h.long_payload() == Seq::new(long_len(), |i: int| 0u8),
            h.idle() == u32::MAX,
    {
        let h = HidppRequestHandler { short_report: [0u8; 6], long_report: [0u8; 19], idle_ms: u32::MAX };
        assert(h.short_report@ =~= Seq::new(short_len(), |i: int| 0u8));
        assert(h.long_report@ =~= Seq::new(long_len(), |i: int| 0u8));
        h
    }

    fn store_short_report(&mut self, data: &[u8])
        ensures
            final(self).short_payload() == stored_report(data@, short_len()),
            final(self).long_payload() == old(self).long_payload(),
            final(self).idle() == old(self).idle(),
    {
        self.short_report = [0u8; 6];
        let len: usize = if data.len() < 6 { data.len() } else { 6 };
        let mut i: usize = 0;
        while i < len
            invariant
                len <= 6,
                len <= data@.len(),
                len == 6 || len == data@.len(),
                i <= len,
                forall|j: int| 0 <= j < i ==> self.short_report@[j] == data@[j],
                forall|j: int| i <= j < 6 ==> self.short_report@[j] == 0u8,
                self.long_report == old(self).long_report,
                self.idle_ms == old(self).idle_ms,
            decreases len - i,
        {
            self.short_report[i] = data[i];
            i = i + 1;
        }
        assert(self.short_report@ =~= stored_report(data@, short_len()));
    }

    fn store_long_report(&mut self, data: &[u8])
        ensures
            final(self).long_payload() == stored_report(data@, long_len()),
            final(self).short_payload() == old(self).short_payload(),
            final(self).idle() == old(self).idle(),
    {
        self.long_report = [0u8; 19];
        let len: usize = if data.len() < 19 { data.len() } else { 19 };
        let mut i: usize = 0;
        while i < len
            invariant
                len <= 19,
                len <= data@.len(),
                len == 19 || len == data@.len(),
                i <= len,
                forall|j: int| 0 <= j < i ==> self.long_report@[j] == data@[j],
                forall|j: int| i <= j < 19 ==> self.long_report@[j] == 0u8,
                self.short_report == old(self).short_report,
                self.idle_ms == old(self).idle_ms,
            decreases len - i,
        {
            self.long_report[i] = data[i];
            i = i + 1;
        }
        assert(self.long_report@ =~= stored_report(data@, long_len()));
    }

    /// Answers a GET_REPORT request: copies the HID++ report that `id`
    /// names to the front of `buf` and returns its length; `None`, with
    /// `buf` untouched, for another id or a buffer too short for the report.
    pub fn get_report(&mut self, id: ReportId, buf: &mut [u8]) -> (r: Option<usize>)
        ensures
            *final(self) == *old(self),
            match readable_report(old(self).short_payload(), old(self).long_payload(), id) {
                Some(report) => (r, final(buf)@) == read_into(report, old(buf)@),
                None => r.is_none() && final(buf)@ == old(buf)@,
            },
    {
        if id == ReportId::In(HIDPP_SHORT_REPORT_ID) || id == ReportId::Feature(HIDPP_SHORT_REPORT_ID) {
            copy_report(self.short_report.as_slice(), buf)
        } else if id == ReportId::In(HIDPP_LONG_REPORT_ID) || id == ReportId::Feature(HIDPP_LONG_REPORT_ID) {
            copy_report(self.long_report.as_slice(), buf)
        } else {
            None
        }
    }

    /// Answers a SET_REPORT request: stores `data` as the HID++ report that
    /// `id` names (cut or zero-padded to its payload length) and accepts it;
    /// rejects any other id and changes nothing.
    pub fn set_report(&mut self, id: ReportId, data: &[u8]) -> (r: OutResponse)
        ensures
            r == write_response(id),
            final(self).short_payload() == short_after_write(old(self).short_payload(), id, data@),
            final(self).long_payload() == long_after_write(old(self).long_payload(), id, data@),
            final(self).idle() == old(self).idle(),
            r == OutResponse::Rejected ==> *final(self) == *old(self),
    {
        if id == ReportId::Out(HIDPP_SHORT_REPORT_ID) || id == ReportId::Feature(HIDPP_SHORT_REPORT_ID) {
            self.store_short_report(data);
            OutResponse::Accepted
        } else if id == ReportId::Out(HIDPP_LONG_REPORT_ID) || id == ReportId::Feature(HIDPP_LONG_REPORT_ID) {
            self.store_long_report(data);
            OutResponse::Accepted
        } else {
            OutResponse::Rejected
        }
    }

    /// The interface always speaks the report protocol.
    pub fn get_protocol(&self) -> (p: HidProtocolMode)
        ensures
            p == HidProtocolMode::Report,
    {
        HidProtocolMode::Report
    }

    /// Accepts a switch to the report protocol and rejects the boot
    /// protocol; the handler does not change.
    pub fn set_protocol(&mut self, protocol: HidProtocolMode) -> (r: OutResponse)
        ensures
            *final(self) == *old(self),
            r == (if protocol == HidProtocolMode::Report {
                OutResponse::Accepted
            } else {
                OutResponse::Rejected
            }),
    {
        match protocol {
            HidProtocolMode::Report => OutResponse::Accepted,
            HidProtocolMode::Boot => OutResponse::Rejected,
        }
    }

    /// The idle rate last set, for any report.
    pub fn get_idle_ms(&mut self, id: Option<ReportId>) -> (r: Option<u32>)
        ensures
            *final(self) == *old(self),
            r == Some(old(self).idle()),
    {
        Some(self.idle_ms)
    }

    /// Sets the idle rate, whatever report the request names.
    pub fn set_idle_ms(&mut self, id: Option<ReportId>, duration_ms: u32)
        ensures
            final(self).idle() == duration_ms,
            final(self).short_payload() == old(self).short_payload(),
            final(self).long_payload() == old(self).long_payload(),
    {
        self.idle_ms = duration_ms;
    }
}

impl Default for HidppRequestHandler {
    fn default() -> (h: Self)
        ensures
            h.short_payload() == Seq::new(short_len(), |i: int| 0u8),
            h.long_payload() == Seq::new(long_len(), |i: int| 0u8),
            h.idle() == u32::MAX,
    {
        Self::new()
    }
}

/// Copies `report` to the front of `buf` where it fits.
fn copy_report(report: &[u8], buf: &mut [u8]) -> (r: Option<usize>)
    ensures
        (r, final(buf)@) == read_into(report@, old(buf)@),
{
    if buf.len() < report.len() {
        return None;
    }
    let n = report.len();
    let mut i: usize = 0;
    while i < n
        invariant
            n == report@.len(),
            n <= buf@.len(),
            buf@.len() == old(buf)@.len(),
            i <= n,
            forall|j: int| 0 <= j < i ==> buf@[j] == report@[j],
            forall|j: int| i <= j < buf@.len() ==> buf@[j] == old(buf)@[j],
        decreases n - i,
    {
        buf[i] = report[i];
        i = i + 1;
    }
    assert(buf@ =~= report@ + old(buf)@.subrange(n as int, old(buf)@.len() as int));
    Some(n)
}

} // verus!
