//! The USB device emulation layer: SETUP packet decoding, the static
//! descriptor table, and the control-endpoint (EP0) engine, plus the two
//! interrupt endpoints that carry CTAPHID packets.
//!
//! Every USB structure is a byte schema serialized explicitly in little
//! endian; the descriptor table is fixed at construction.

use vstd::prelude::*;
use crate::ctaphid::Parser;

verus! {

#[derive(Clone, Copy, Debug, PartialEq, Eq, Structural)]
pub enum DataTransferDirection {
    HostToDevice,
    DeviceToHost,
}

#[derive(Clone, Copy, Debug, PartialEq, Eq, Structural)]
pub enum RequestType {
    Standard,
    Class,
    Vendor,
    Reserved,
}

#[derive(Clone, Copy, Debug, PartialEq, Eq, Structural)]
pub enum RequestRecipient {
    Device,
    Interface,
    Endpoint,
    Other,
}

#[derive(Clone, Copy, Debug, PartialEq, Eq, Structural)]
pub enum StandardRequest {
    GetStatus,
    ClearFeature,
    SetFeature,
    SetAddress,
    GetDescriptor,
    SetDescriptor,
    GetConfiguration,
    SetConfiguration,
    GetInterface,
    SetInterface,
    SynchFrame,
}

#[derive(Clone, Copy, Debug, PartialEq, Eq, Structural)]
pub enum HIDRequest {
    GetReport,
    GetIdle,
    GetProtocol,
    SetReport,
    SetIdle,
    SetProtocol,
}

/// The decoded bmRequestType byte: direction bit 7, type bits 5..6,
/// recipient bits 0..4.
#[derive(Clone, Copy, Debug, PartialEq, Eq, Structural)]
pub struct BmRequestType {
    pub direction: DataTransferDirection,
    pub request_type: RequestType,
    pub recipient: RequestRecipient,
}

/// A decoded 8-byte SETUP packet (all multi-byte fields little-endian).
#[derive(Clone, Copy, Debug, PartialEq, Eq, Structural)]
pub struct SetupPacket {
    pub bm_request_type: BmRequestType,
    pub b_request: u8,
    pub w_value: u16,
    pub w_index: u16,
    pub w_length: u16,
}

pub open spec fn spec_direction(b: u8) -> DataTransferDirection {
    if b / 128 == 1 {
        DataTransferDirection::DeviceToHost
    } else {
        DataTransferDirection::HostToDevice
    }
}

pub open spec fn spec_request_type(b: u8) -> RequestType {
    let t = (b / 32) % 4;
    if t == 0 {
        RequestType::Standard
    } else if t == 1 {
        RequestType::Class
    } else if t == 2 {
        RequestType::Vendor
    } else {
        RequestType::Reserved
    }
}

/// The recipient field has 5 bits; values above 3 are reserved and make
/// the whole SETUP packet undecodable.
pub open spec fn spec_recipient(b: u8) -> Option<RequestRecipient> {
    let x = b % 32;
    if x == 0 {
        Some(RequestRecipient::Device)
    } else if x == 1 {
        Some(RequestRecipient::Interface)
    } else if x == 2 {
        Some(RequestRecipient::Endpoint)
    } else if x == 3 {
        Some(RequestRecipient::Other)
    } else {
        None
    }
}

pub open spec fn spec_u16_le(lo: u8, hi: u8) -> u16 {
    (lo + hi * 256) as u16
}

/// The SETUP packet grammar on its 8 bytes.
pub open spec fn spec_parse_setup(s: Seq<u8>) -> Option<SetupPacket>
    recommends
        s.len() == 8,
{
    match spec_recipient(s[0]) {
        None => None,
        Some(recipient) => Some(
            SetupPacket {
                bm_request_type: BmRequestType {
                    direction: spec_direction(s[0]),
                    request_type: spec_request_type(s[0]),
                    recipient,
                },
                b_request: s[1],
                w_value: spec_u16_le(s[2], s[3]),
                w_index: spec_u16_le(s[4], s[5]),
                w_length: spec_u16_le(s[6], s[7]),
            },
        ),
    }
}

pub open spec fn spec_std_request(b: u8) -> Option<StandardRequest> {
    if b == 0 {
        Some(StandardRequest::GetStatus)
    } else if b == 1 {
        Some(StandardRequest::ClearFeature)
    } else if b == 3 {
        Some(StandardRequest::SetFeature)
    } else if b == 5 {
        Some(StandardRequest::SetAddress)
    } else if b == 6 {
        Some(StandardRequest::GetDescriptor)
    } else if b == 7 {
        Some(StandardRequest::SetDescriptor)
    } else if b == 8 {
        Some(StandardRequest::GetConfiguration)
    } else if b == 9 {
        Some(StandardRequest::SetConfiguration)
    } else if b == 10 {
        Some(StandardRequest::GetInterface)
    } else if b == 11 {
        Some(StandardRequest::SetInterface)
    } else if b == 12 {
        Some(StandardRequest::SynchFrame)
    } else {
        None
    }
}

pub open spec fn spec_hid_request(b: u8) -> Option<HIDRequest> {
    if b == 1 {
        Some(HIDRequest::GetReport)
    } else if b == 2 {
        Some(HIDRequest::GetIdle)
    } else if b == 3 {
        Some(HIDRequest::GetProtocol)
    } else if b == 9 {
        Some(HIDRequest::SetReport)
    } else if b == 0x0A {
        Some(HIDRequest::SetIdle)
    } else if b == 0x0B {
        Some(HIDRequest::SetProtocol)
    } else {
        None
    }
}

impl SetupPacket {
    /// Decode the first 8 bytes of an EP0 transfer.
    pub fn unpack(bytes: &[u8]) -> (r: Option<SetupPacket>)
        requires
            bytes@.len() == 8,
        ensures
            r == spec_parse_setup(bytes@),
    {
        let b0 = bytes[0];
        let recipient = if b0 % 32 == 0 {
            RequestRecipient::Device
        } else if b0 % 32 == 1 {
            RequestRecipient::Interface
        } else if b0 % 32 == 2 {
            RequestRecipient::Endpoint
        } else if b0 % 32 == 3 {
            RequestRecipient::Other
        } else {
            return None;
        };
        let direction = if b0 / 128 == 1 {
            DataTransferDirection::DeviceToHost
        } else {
            DataTransferDirection::HostToDevice
        };
        let t = (b0 / 32) % 4;
        let request_type = if t == 0 {
            RequestType::Standard
        } else if t == 1 {
            RequestType::Class
        } else if t == 2 {
            RequestType::Vendor
        } else {
            RequestType::Reserved
        };
        Some(
            SetupPacket {
                bm_request_type: BmRequestType { direction, request_type, recipient },
                b_request: bytes[1],
                w_value: (bytes[2] as u16) + (bytes[3] as u16) * 256,
                w_index: (bytes[4] as u16) + (bytes[5] as u16) * 256,
                w_length: (bytes[6] as u16) + (bytes[7] as u16) * 256,
            },
        )
    }

    pub fn request_type(self) -> (r: (DataTransferDirection, RequestType, RequestRecipient))
        ensures
            r == (
                self.bm_request_type.direction,
                self.bm_request_type.request_type,
                self.bm_request_type.recipient,
            ),
    {
        (
            self.bm_request_type.direction,
            self.bm_request_type.request_type,
            self.bm_request_type.recipient,
        )
    }

    pub fn args(self) -> (r: (u16, u16, u16))
        ensures
            r == (self.w_value, self.w_index, self.w_length),
    {
        (self.w_value, self.w_index, self.w_length)
    }

    /// The standard request this packet carries, if any.
    pub fn standard(self) -> (r: Option<StandardRequest>)
        ensures
            r == spec_std_request(self.b_request),
    {
        if self.b_request == 0 {
            Some(StandardRequest::GetStatus)
        } else if self.b_request == 1 {
            Some(StandardRequest::ClearFeature)
        } else if self.b_request == 3 {
            Some(StandardRequest::SetFeature)
        } else if self.b_request == 5 {
            Some(StandardRequest::SetAddress)
        } else if self.b_request == 6 {
            Some(StandardRequest::GetDescriptor)
        } else if self.b_request == 7 {
            Some(StandardRequest::SetDescriptor)
        } else if self.b_request == 8 {
            Some(StandardRequest::GetConfiguration)
        } else if self.b_request == 9 {
            Some(StandardRequest::SetConfiguration)
        } else if self.b_request == 10 {
            Some(StandardRequest::GetInterface)
        } else if self.b_request == 11 {
            Some(StandardRequest::SetInterface)
        } else if self.b_request == 12 {
            Some(StandardRequest::SynchFrame)
        } else {
            None
        }
    }

    /// The HID class request this packet carries, if any, with its
    /// arguments.
    pub fn hid_request(self) -> (r: Option<(HIDRequest, (u16, u16, u16))>)
        ensures
            match r {
                Some((h, a)) => spec_hid_request(self.b_request) == Some(h) && a == (
                    self.w_value,
                    self.w_index,
                    self.w_length,
                ),
                None => spec_hid_request(self.b_request) is None,
            },
    {
        let h = if self.b_request == 1 {
            HIDRequest::GetReport
        } else if self.b_request == 2 {
            HIDRequest::GetIdle
        } else if self.b_request == 3 {
            HIDRequest::GetProtocol
        } else if self.b_request == 9 {
            HIDRequest::SetReport
        } else if self.b_request == 0x0A {
            HIDRequest::SetIdle
        } else if self.b_request == 0x0B {
            HIDRequest::SetProtocol
        } else {
            return None;
        };
        Some((h, (self.w_value, self.w_index, self.w_length)))
    }
}

// ------------------------------------------------------------------
// The static descriptor table.
// ------------------------------------------------------------------

/// Device descriptor: USB 1.10, class per interface, 64-byte EP0, one
/// configuration, string indexes 1..3.
pub open spec fn spec_device_descriptor() -> Seq<u8> {
    seq![
        0x12u8, 0x01, 0x10, 0x01, 0x00, 0x00, 0x00, 0x40, 0x00, 0x00, 0x00, 0x00, 0x01, 0x00,
        0x01, 0x02, 0x03, 0x01,
    ]
}

/// Configuration descriptor: one interface, wTotalLength 41,
/// iConfiguration 4, self-powered.
pub open spec fn spec_config_descriptor() -> Seq<u8> {
    seq![0x09u8, 0x02, 0x29, 0x00, 0x01, 0x00, 0x04, 0xC0, 0x00]
}

/// Interface descriptor: HID class, two endpoints, iInterface 5.
pub open spec fn spec_interface_descriptor() -> Seq<u8> {
    seq![0x09u8, 0x04, 0x00, 0x00, 0x02, 0x03, 0x00, 0x00, 0x05]
}

/// HID descriptor: bcdHID 1.01, one report descriptor of 34 bytes.
pub open spec fn spec_hid_descriptor() -> Seq<u8> {
    seq![0x09u8, 0x21, 0x01, 0x01, 0x00, 0x01, 0x22, 0x22, 0x00]
}

/// EP1 IN, interrupt, 64 bytes, interval 255.
pub open spec fn spec_ep1_descriptor() -> Seq<u8> {
    seq![0x07u8, 0x05, 0x81, 0x03, 0x40, 0x00, 0xFF]
}

/// EP2 OUT, interrupt, 64 bytes, interval 255.
pub open spec fn spec_ep2_descriptor() -> Seq<u8> {
    seq![0x07u8, 0x05, 0x02, 0x03, 0x40, 0x00, 0xFF]
}

/// The configuration bundle, as the host reads it: configuration,
/// interface, HID and the two endpoint descriptors.
pub open spec fn spec_config_bundle() -> Seq<u8> {
    spec_config_descriptor() + spec_interface_descriptor() + spec_hid_descriptor()
        + spec_ep1_descriptor() + spec_ep2_descriptor()
}

/// The FIDO report descriptor: usage page 0xF1D0, usage 1, a 64-byte
/// input report and a 64-byte output report.
pub open spec fn spec_hid_report_descriptor() -> Seq<u8> {
    seq![
        0x06u8, 0xD0, 0xF1, 0x09, 0x01, 0xA1, 0x01, 0x09, 0x20, 0x15, 0x00, 0x26, 0xFF, 0x00,
        0x75, 0x08, 0x95, 0x40, 0x81, 0x02, 0x09, 0x21, 0x15, 0x00, 0x26, 0xFF, 0x00, 0x75, 0x08,
        0x95, 0x40, 0x91, 0x02, 0xC0,
    ]
}

/// String descriptor 0: the language table, en-US only.
pub open spec fn spec_lang_descriptor() -> Seq<u8> {
    seq![0x04u8, 0x03, 0x09, 0x04]
}

/// String descriptors 1..5, UTF-16LE with a two-byte header.
pub open spec fn spec_string_descriptor(index: u8) -> Option<Seq<u8>> {
    if index == 1 {
        // "Fakecompany"
        Some(
            seq![
                0x18u8, 0x03, 0x46, 0x00, 0x61, 0x00, 0x6B, 0x00, 0x65, 0x00, 0x63, 0x00, 0x6F,
                0x00, 0x6D, 0x00, 0x70, 0x00, 0x61, 0x00, 0x6E, 0x00, 0x79, 0x00,
            ],
        )
    } else if index == 2 {
        // "Softproduct"
        Some(
            seq![
                0x18u8, 0x03, 0x53, 0x00, 0x6F, 0x00, 0x66, 0x00, 0x74, 0x00, 0x70, 0x00, 0x72,
                0x00, 0x6F, 0x00, 0x64, 0x00, 0x75, 0x00, 0x63, 0x00, 0x74, 0x00,
            ],
        )
    } else if index == 3 {
        // "v0"
        Some(seq![0x06u8, 0x03, 0x76, 0x00, 0x30, 0x00])
    } else if index == 4 {
        // "Default Config"
        Some(
            seq![
                0x1Eu8, 0x03, 0x44, 0x00, 0x65, 0x00, 0x66, 0x00, 0x61, 0x00, 0x75, 0x00, 0x6C,
                0x00, 0x74, 0x00, 0x20, 0x00, 0x43, 0x00, 0x6F, 0x00, 0x6E, 0x00, 0x66, 0x00,
                0x69, 0x00, 0x67, 0x00,
            ],
        )
    } else if index == 5 {
        // "The Interface"
        Some(
            seq![
                0x1Cu8, 0x03, 0x54, 0x00, 0x68, 0x00, 0x65, 0x00, 0x20, 0x00, 0x49, 0x00, 0x6E,
                0x00, 0x74, 0x00, 0x65, 0x00, 0x72, 0x00, 0x66, 0x00, 0x61, 0x00, 0x63, 0x00,
                0x65, 0x00,
            ],
        )
    } else {
        None
    }
}

/// The descriptor the host named in wValue (type, index) and wIndex
/// (language), before truncation.
pub open spec fn spec_descriptor_bytes(ty: u8, index: u8, lang: u16) -> Option<Seq<u8>> {
    if ty == 1 && index == 0 && lang == 0 {
        Some(spec_device_descriptor())
    } else if ty == 2 && index == 0 && lang == 0 {
        Some(spec_config_bundle())
    } else if ty == 3 && index == 0 && lang == 0 {
        Some(spec_lang_descriptor())
    } else if ty == 3 && lang == 0x0409 {
        spec_string_descriptor(index)
    } else {
        None
    }
}

/// Truncate a reply to the host's wLength; the host learns total sizes
/// by reading with a small wLength first.
pub open spec fn spec_truncate(b: Seq<u8>, n: u16) -> Seq<u8> {
    if b.len() <= n {
        b
    } else {
        b.take(n as int)
    }
}

pub open spec fn spec_get_descriptor_reply(p: SetupPacket) -> Option<Seq<u8>> {
    match spec_descriptor_bytes((p.w_value / 256) as u8, (p.w_value % 256) as u8, p.w_index) {
        Some(b) => Some(spec_truncate(b, p.w_length)),
        None => None,
    }
}

/// The whole EP0 IN dispatch: GetDescriptor, GetStatus and the report
/// descriptor read; everything else stalls (`None`).
pub open spec fn spec_ep0_in_reply(p: SetupPacket) -> Option<Seq<u8>> {
    let t = p.bm_request_type;
    if t.direction is DeviceToHost && t.request_type is Standard && t.recipient is Device {
        if spec_std_request(p.b_request) == Some(StandardRequest::GetDescriptor) {
            spec_get_descriptor_reply(p)
        } else if spec_std_request(p.b_request) == Some(StandardRequest::GetStatus) && p.w_value
            == 0 && p.w_index == 0 && p.w_length == 2 {
            // Self-powered.
            Some(seq![0x01u8, 0x00])
        } else {
            None
        }
    } else if t.direction is DeviceToHost && t.request_type is Standard
        && t.recipient is Interface {
        if spec_std_request(p.b_request) == Some(StandardRequest::GetDescriptor) && p.w_value
            / 256 == 0x22 {
            Some(spec_truncate(spec_hid_report_descriptor(), p.w_length))
        } else {
            None
        }
    } else {
        None
    }
}

/// The EP0 OUT requests that are acknowledged as no-ops:
/// SetConfiguration and SetIdle with all-zero arguments.
pub open spec fn spec_ep0_out_ok(p: SetupPacket) -> bool {
    let t = p.bm_request_type;
    ||| (t.direction is HostToDevice && t.request_type is Standard && t.recipient is Device
        && spec_std_request(p.b_request) == Some(StandardRequest::SetConfiguration) && p.w_value
        == 0 && p.w_index == 0 && p.w_length == 0)
    ||| (t.direction is HostToDevice && t.request_type is Class && t.recipient is Interface
        && spec_hid_request(p.b_request) == Some(HIDRequest::SetIdle) && p.w_value == 0
        && p.w_index == 0 && p.w_length == 0)
}

/// Descriptor reads are consistent: a shorter read is a byte-for-byte
/// prefix of a longer one, and a read whose wLength covers the
/// descriptor returns it whole.  So concatenating what ascending reads
/// returned, truncated at each step to the shortest wLength, is exactly
/// the static table.
pub proof fn lemma_descriptor_reads_consistent(ty: u8, index: u8, lang: u16, l1: u16, l2: u16)
    requires
        l1 <= l2,
    ensures
        spec_descriptor_bytes(ty, index, lang) matches Some(b) ==> {
            &&& spec_truncate(b, l1).is_prefix_of(spec_truncate(b, l2))
            &&& b.len() <= l2 ==> spec_truncate(b, l2) == b
            &&& spec_truncate(b, l1) == spec_truncate(b, l2).take(
                spec_truncate(b, l1).len() as int,
            )
        },
{
    if spec_descriptor_bytes(ty, index, lang) is Some {
        let b = spec_descriptor_bytes(ty, index, lang).unwrap();
        assert(spec_truncate(b, l1) == spec_truncate(b, l2).take(
            spec_truncate(b, l1).len() as int,
        )) by {
            assert(spec_truncate(b, l1) =~= spec_truncate(b, l2).take(
                spec_truncate(b, l1).len() as int,
            ));
        }
        assert(spec_truncate(b, l1).is_prefix_of(spec_truncate(b, l2))) by {
            assert(spec_truncate(b, l1) =~= spec_truncate(b, l2).take(
                spec_truncate(b, l1).len() as int,
            ));
        }
    }
}

// ------------------------------------------------------------------
// The device.
// ------------------------------------------------------------------

/// What EP0 answers: data for IN requests, a bare acknowledgement for
/// accepted OUT requests, or a stall.
pub enum Ep0Reply {
    Data(Vec<u8>),
    Ack,
    Stall,
}

/// The virtual USB device: the fixed descriptor table above and one
/// CTAPHID framer.
pub struct Device {
    pub parser: Parser,
}

fn truncated(v: Vec<u8>, n: u16) -> (r: Vec<u8>)
    ensures
        r@ == spec_truncate(v@, n),
{
    let ghost orig = v@;
    let mut w = v;
    if w.len() > n as usize {
        w.truncate(n as usize);
        proof {
            assert(w@ =~= spec_truncate(orig, n));
        }
    }
    w
}

impl Device {
    pub fn new() -> (r: Device)
        ensures
            r.parser.wf(),
            r.parser.channels@.len() == 0,
            r.parser.send_queue@.len() == 0,
            r.parser.pending is None,
            r.parser.next_cid == 1,
            r.parser.auth.counter == 0,
            r.parser.auth.pin_retries == crate::auth::MAX_PIN_RETRIES,
            r.parser.auth.consecutive_wrong == 0,
            !r.parser.auth.pin_set,
    {
        Device { parser: Parser::new() }
    }

    /// The device descriptor bytes.
    pub fn device_descriptor(&self) -> (r: Vec<u8>)
        ensures
            r@ == spec_device_descriptor(),
    {
        let v: Vec<u8> = vec![
            0x12u8, 0x01, 0x10, 0x01, 0x00, 0x00, 0x00, 0x40, 0x00, 0x00, 0x00, 0x00, 0x01, 0x00,
            0x01, 0x02, 0x03, 0x01,
        ];
        proof {
            assert(v@ =~= spec_device_descriptor());
        }
        v
    }

    /// The configuration bundle bytes.
    pub fn config_bundle(&self) -> (r: Vec<u8>)
        ensures
            r@ == spec_config_bundle(),
    {
        let v: Vec<u8> = vec![
            0x09u8, 0x02, 0x29, 0x00, 0x01, 0x00, 0x04, 0xC0, 0x00,
            0x09, 0x04, 0x00, 0x00, 0x02, 0x03, 0x00, 0x00, 0x05,
            0x09, 0x21, 0x01, 0x01, 0x00, 0x01, 0x22, 0x22, 0x00,
            0x07, 0x05, 0x81, 0x03, 0x40, 0x00, 0xFF,
            0x07, 0x05, 0x02, 0x03, 0x40, 0x00, 0xFF,
        ];
        proof {
            assert(v@ =~= spec_config_bundle());
        }
        v
    }

    /// The report descriptor bytes.
    pub fn hid_report_descriptor(&self) -> (r: Vec<u8>)
        ensures
            r@ == spec_hid_report_descriptor(),
    {
        let v: Vec<u8> = vec![
            0x06u8, 0xD0, 0xF1, 0x09, 0x01, 0xA1, 0x01, 0x09, 0x20, 0x15, 0x00, 0x26, 0xFF, 0x00,
            0x75, 0x08, 0x95, 0x40, 0x81, 0x02, 0x09, 0x21, 0x15, 0x00, 0x26, 0xFF, 0x00, 0x75,
            0x08, 0x95, 0x40, 0x91, 0x02, 0xC0,
        ];
        proof {
            assert(v@ =~= spec_hid_report_descriptor());
        }
        v
    }

    /// String descriptor 0: the language table.
    pub fn get_lang_descriptor(&self) -> (r: Vec<u8>)
        ensures
            r@ == spec_lang_descriptor(),
    {
        let v: Vec<u8> = vec![0x04u8, 0x03, 0x09, 0x04];
        proof {
            assert(v@ =~= spec_lang_descriptor());
        }
        v
    }

    /// String descriptors 1..5.
    pub fn get_string_descriptor(&self, index: u8) -> (r: Option<Vec<u8>>)
        ensures
            match r {
                Some(v) => spec_string_descriptor(index) == Some(v@),
                None => spec_string_descriptor(index) is None,
            },
    {
        let v: Vec<u8> = if index == 1 {
            vec![
                0x18u8, 0x03, 0x46, 0x00, 0x61, 0x00, 0x6B, 0x00, 0x65, 0x00, 0x63, 0x00, 0x6F,
                0x00, 0x6D, 0x00, 0x70, 0x00, 0x61, 0x00, 0x6E, 0x00, 0x79, 0x00,
            ]
        } else if index == 2 {
            vec![
                0x18u8, 0x03, 0x53, 0x00, 0x6F, 0x00, 0x66, 0x00, 0x74, 0x00, 0x70, 0x00, 0x72,
                0x00, 0x6F, 0x00, 0x64, 0x00, 0x75, 0x00, 0x63, 0x00, 0x74, 0x00,
            ]
        } else if index == 3 {
            vec![0x06u8, 0x03, 0x76, 0x00, 0x30, 0x00]
        } else if index == 4 {
            vec![
                0x1Eu8, 0x03, 0x44, 0x00, 0x65, 0x00, 0x66, 0x00, 0x61, 0x00, 0x75, 0x00, 0x6C,
                0x00, 0x74, 0x00, 0x20, 0x00, 0x43, 0x00, 0x6F, 0x00, 0x6E, 0x00, 0x66, 0x00,
                0x69, 0x00, 0x67, 0x00,
            ]
        } else if index == 5 {
            vec![
                0x1Cu8, 0x03, 0x54, 0x00, 0x68, 0x00, 0x65, 0x00, 0x20, 0x00, 0x49, 0x00, 0x6E,
                0x00, 0x74, 0x00, 0x65, 0x00, 0x72, 0x00, 0x66, 0x00, 0x61, 0x00, 0x63, 0x00,
                0x65, 0x00,
            ]
        } else {
            return None;
        };
        proof {
            assert(spec_string_descriptor(index) == Some(v@)) by {
                if index == 1 {
                    assert(v@ =~= spec_string_descriptor(index).unwrap());
                } else if index == 2 {
                    assert(v@ =~= spec_string_descriptor(index).unwrap());
                } else if index == 3 {
                    assert(v@ =~= spec_string_descriptor(index).unwrap());
                } else if index == 4 {
                    assert(v@ =~= spec_string_descriptor(index).unwrap());
                } else {
                    assert(v@ =~= spec_string_descriptor(index).unwrap());
                }
            }
        }
        Some(v)
    }

    /// GetDescriptor: the named descriptor, truncated to wLength.
    pub fn get_descriptor(&self, req: SetupPacket) -> (r: Option<Vec<u8>>)
        ensures
            match r {
                Some(v) => spec_get_descriptor_reply(req) == Some(v@),
                None => spec_get_descriptor_reply(req) is None,
            },
    {
        let ty = (req.w_value / 256) as u8;
        let index = (req.w_value % 256) as u8;
        let lang = req.w_index;
        let full: Vec<u8> = if ty == 1 && index == 0 && lang == 0 {
            self.device_descriptor()
        } else if ty == 2 && index == 0 && lang == 0 {
            self.config_bundle()
        } else if ty == 3 && index == 0 && lang == 0 {
            self.get_lang_descriptor()
        } else if ty == 3 && lang == 0x0409 {
            match self.get_string_descriptor(index) {
                Some(v) => v,
                None => {
                    return None;
                },
            }
        } else {
            return None;
        };
        Some(truncated(full, req.w_length))
    }

    /// GetDescriptor on the interface: the report descriptor.
    pub fn get_interface_descriptor(&self, req: SetupPacket) -> (r: Option<Vec<u8>>)
        ensures
            match r {
                Some(v) => req.w_value / 256 == 0x22 && v@ == spec_truncate(
                    spec_hid_report_descriptor(),
                    req.w_length,
                ),
                None => req.w_value / 256 != 0x22,
            },
    {
        if req.w_value / 256 == 0x22 {
            Some(truncated(self.hid_report_descriptor(), req.w_length))
        } else {
            None
        }
    }

    /// The EP0 IN engine: answer or stall, exactly as
    /// `spec_ep0_in_reply` says.
    pub fn ep0_dev2host(&self, req: SetupPacket) -> (r: Ep0Reply)
        ensures
            match r {
                Ep0Reply::Data(v) => spec_ep0_in_reply(req) == Some(v@),
                Ep0Reply::Stall => spec_ep0_in_reply(req) is None,
                Ep0Reply::Ack => false,
            },
    {
        let (dir, ty, recipient) = req.request_type();
        match (dir, ty, recipient) {
            (
                DataTransferDirection::DeviceToHost,
                RequestType::Standard,
                RequestRecipient::Device,
            ) => {
                match req.standard() {
                    Some(StandardRequest::GetDescriptor) => match self.get_descriptor(req) {
                        Some(v) => Ep0Reply::Data(v),
                        None => Ep0Reply::Stall,
                    },
                    Some(StandardRequest::GetStatus) => {
                        if req.w_value == 0 && req.w_index == 0 && req.w_length == 2 {
                            let mut v: Vec<u8> = Vec::new();
                            v.push(0x01);
                            v.push(0x00);
                            proof {
                                assert(v@ =~= seq![0x01u8, 0x00]);
                            }
                            Ep0Reply::Data(v)
                        } else {
                            Ep0Reply::Stall
                        }
                    },
                    _ => Ep0Reply::Stall,
                }
            },
            (
                DataTransferDirection::DeviceToHost,
                RequestType::Standard,
                RequestRecipient::Interface,
            ) => {
                match req.standard() {
                    Some(StandardRequest::GetDescriptor) => {
                        match self.get_interface_descriptor(req) {
                            Some(v) => Ep0Reply::Data(v),
                            None => Ep0Reply::Stall,
                        }
                    },
                    _ => Ep0Reply::Stall,
                }
            },
            _ => Ep0Reply::Stall,
        }
    }

    /// The EP0 OUT engine: acknowledge the two supported no-op requests,
    /// stall everything else.
    pub fn ep0_host2dev(&self, req: SetupPacket) -> (r: Ep0Reply)
        ensures
            match r {
                Ep0Reply::Ack => spec_ep0_out_ok(req),
                Ep0Reply::Stall => !spec_ep0_out_ok(req),
                Ep0Reply::Data(v) => false,
            },
    {
        let (dir, ty, recipient) = req.request_type();
        match (dir, ty, recipient) {
            (
                DataTransferDirection::HostToDevice,
                RequestType::Standard,
                RequestRecipient::Device,
            ) => {
                match req.standard() {
                    Some(StandardRequest::SetConfiguration) => {
                        if req.w_value == 0 && req.w_index == 0 && req.w_length == 0 {
                            Ep0Reply::Ack
                        } else {
                            Ep0Reply::Stall
                        }
                    },
                    _ => Ep0Reply::Stall,
                }
            },
            (
                DataTransferDirection::HostToDevice,
                RequestType::Class,
                RequestRecipient::Interface,
            ) => {
                match req.hid_request() {
                    Some((HIDRequest::SetIdle, (0, 0, 0))) => Ep0Reply::Ack,
                    _ => Ep0Reply::Stall,
                }
            },
            _ => Ep0Reply::Stall,
        }
    }

    /// EP1 IN: hand out the next ready frame, or park the request.
    pub fn ep1_dev2host(&mut self) -> (r: Option<Vec<u8>>)
        requires
            old(self).parser.wf(),
        ensures
            final(self).parser.wf(),
            final(self).parser.channels == old(self).parser.channels,
            final(self).parser.next_cid == old(self).parser.next_cid,
            final(self).parser.pending == old(self).parser.pending,
            final(self).parser.auth == old(self).parser.auth,
            match r {
                Some(f) => old(self).parser.send_queue@.len() > 0 && f == old(self).parser.send_queue@[0] && final(self).parser.send_queue@ == old(self).parser.send_queue@.skip(1) && f@.len() == 64,
                None => old(self).parser.send_queue@.len() == 0 && final(self).parser == old(self).parser,
            },
    {
        self.parser.next_frame()
    }

    /// EP2 OUT: feed one 64-byte packet into the framer.  The whole
    /// packet-level transition of the framer (assembly, sequence
    /// enforcement, channel allocation, dispatch, error frames) carries
    /// over unchanged.
    pub fn ep2_host2dev(&mut self, data: &[u8])
        requires
            old(self).parser.wf(),
            data@.len() == 64,
        ensures
            final(self).parser.wf(),
            crate::ctaphid::spec_packet_step(old(self).parser, final(self).parser, data@),
    {
        self.parser.handle_packet(data);
    }
}

/// How the scheduler completes a URB: data back to the host, a bare
/// acknowledgement, an endpoint stall, or parking until data is ready.
pub enum UrbOutcome {
    Data(Vec<u8>),
    Ack,
    Stall,
    Park,
}

/// One USB request block as the transport hands it over: the endpoint,
/// the direction, and the transfer buffer (the 8 SETUP bytes on EP0, one
/// 64-byte packet on EP2, empty on EP1 IN).
pub struct URB {
    pub endpoint: u8,
    pub dev_to_host: bool,
    pub transfer_buffer: Vec<u8>,
}

impl Device {
    /// Route one URB to its endpoint handler: EP0 control traffic in
    /// both directions, EP1 IN interrupt reads, EP2 OUT interrupt
    /// writes.  An EP1 IN request parks when no frame is ready; the
    /// caller re-runs it after the next EP2 OUT delivery.
    pub fn handle_urb(&mut self, urb: &URB) -> (r: UrbOutcome)
        requires
            old(self).parser.wf(),
        ensures
            final(self).parser.wf(),
            urb.endpoint == 0 && urb.dev_to_host && urb.transfer_buffer@.len() == 8 ==> *final(self) == *old(self)
                && (match spec_parse_setup(urb.transfer_buffer@) {
                Some(p) => match spec_ep0_in_reply(p) {
                    Some(reply) => r matches UrbOutcome::Data(v) && v@ == reply,
                    None => r is Stall,
                },
                None => r is Stall,
            }),
            urb.endpoint == 0 && !urb.dev_to_host && urb.transfer_buffer@.len() == 8 ==> *final(self) == *old(self)
                && (match spec_parse_setup(urb.transfer_buffer@) {
                Some(p) => if spec_ep0_out_ok(p) {
                    r is Ack
                } else {
                    r is Stall
                },
                None => r is Stall,
            }),
            urb.endpoint == 1 && urb.dev_to_host ==> final(self).parser.channels == old(self).parser.channels && final(self).parser.next_cid == old(self).parser.next_cid
                && final(self).parser.pending == old(self).parser.pending && final(self).parser.auth == old(self).parser.auth && (match r {
                UrbOutcome::Data(v) => old(self).parser.send_queue@.len() > 0 && v == old(self).parser.send_queue@[0] && final(self).parser.send_queue@ == old(self).parser.send_queue@.skip(1),
                UrbOutcome::Park => old(self).parser.send_queue@.len() == 0 && *final(self)
                    == *old(self),
                _ => false,
            }),
            urb.endpoint == 2 && !urb.dev_to_host && urb.transfer_buffer@.len() == 64 ==> r is Ack
                && crate::ctaphid::spec_packet_step(
                old(self).parser,
                final(self).parser,
                urb.transfer_buffer@,
            ),
            urb.endpoint == 0 && urb.transfer_buffer@.len() != 8 ==> r is Stall && *final(self) == *old(self),
            urb.endpoint == 2 && !urb.dev_to_host && urb.transfer_buffer@.len() != 64 ==> r is Stall && *final(self)
                == *old(self),
            urb.endpoint > 2 || (urb.endpoint == 1 && !urb.dev_to_host) || (urb.endpoint == 2 && urb.dev_to_host)
                ==> r is Stall && *final(self) == *old(self),
    {
        if urb.endpoint == 0 {
            if urb.transfer_buffer.len() != 8 {
                return UrbOutcome::Stall;
            }
            let req = match SetupPacket::unpack(urb.transfer_buffer.as_slice()) {
                Some(req) => req,
                None => {
                    return UrbOutcome::Stall;
                },
            };
            if urb.dev_to_host {
                match self.ep0_dev2host(req) {
                    Ep0Reply::Data(v) => UrbOutcome::Data(v),
                    Ep0Reply::Ack => UrbOutcome::Ack,
                    Ep0Reply::Stall => UrbOutcome::Stall,
                }
            } else {
                match self.ep0_host2dev(req) {
                    Ep0Reply::Data(_) => UrbOutcome::Stall,
                    Ep0Reply::Ack => UrbOutcome::Ack,
                    Ep0Reply::Stall => UrbOutcome::Stall,
                }
            }
        } else if urb.endpoint == 1 && urb.dev_to_host {
            match self.ep1_dev2host() {
                Some(f) => UrbOutcome::Data(f),
                None => UrbOutcome::Park,
            }
        } else if urb.endpoint == 2 && !urb.dev_to_host {
            if urb.transfer_buffer.len() != 64 {
                return UrbOutcome::Stall;
            }
            self.ep2_host2dev(urb.transfer_buffer.as_slice());
            UrbOutcome::Ack
        } else {
            UrbOutcome::Stall
        }
    }

    /// Whether a parked EP1 IN request can be completed now.
    pub fn ep1_ready(&self) -> (r: bool)
        ensures
            r == (self.parser.send_queue@.len() > 0),
    {
        self.parser.send_queue.len() > 0
    }
}

} // verus!
