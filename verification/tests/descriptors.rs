//! Tests of the EP0 engine, the descriptor table and the CTAP2 GetInfo
//! encoding (cross-checked with an independent CBOR parser).

use serde_cbor::Value;
use softfido::auth::AuthState;
use softfido::ctap2::{get_info_response, handle_cbor};
use softfido::usb::{Device, Ep0Reply, SetupPacket};

fn ep0_in(dev: &Device, setup: &[u8; 8]) -> Option<Vec<u8>> {
    let req = SetupPacket::unpack(setup).expect("a decodable SETUP packet");
    match dev.ep0_dev2host(req) {
        Ep0Reply::Data(v) => Some(v),
        Ep0Reply::Stall => None,
        Ep0Reply::Ack => panic!("an IN request never answers with a bare ACK"),
    }
}

#[test]
fn test_get_device_descriptor() {
    // SETUP 80 06 00 01 00 00 12 00: the 18-byte device descriptor.
    let dev = Device::new();
    let d = ep0_in(&dev, &[0x80, 0x06, 0x00, 0x01, 0x00, 0x00, 0x12, 0x00]).unwrap();
    assert_eq!(d[0] as usize, d.len()); // bLength
    assert_eq!(d[1], 1); // bDescriptorType: device
    assert_eq!(d[4], 0); // bDeviceClass: per interface
    assert_eq!(d[17], 1); // bNumConfigurations
}

#[test]
fn test_device_descriptor_fields() {
    let dev = Device::new();
    let d = ep0_in(&dev, &[0x80, 0x06, 0x00, 0x01, 0x00, 0x00, 0x12, 0x00]).unwrap();
    assert_eq!(d.len(), 18);
    assert_eq!(u16::from_le_bytes([d[2], d[3]]), 0x0110); // bcdUSB
    assert_eq!(d[7], 64); // bMaxPacketSize0
    assert_eq!((d[14], d[15], d[16]), (1, 2, 3)); // string indexes
}

#[test]
fn test_config_descriptor_short_then_full() {
    // A 9-byte read reveals wTotalLength; a big read returns the bundle,
    // and the short read is a byte-for-byte prefix of it.
    let dev = Device::new();
    let short = ep0_in(&dev, &[0x80, 0x06, 0x00, 0x02, 0x00, 0x00, 0x09, 0x00]).unwrap();
    assert_eq!(short.len(), 9);
    assert_eq!(short[1], 2); // bDescriptorType: configuration
    let total = u16::from_le_bytes([short[2], short[3]]) as usize;
    let full = ep0_in(&dev, &[0x80, 0x06, 0x00, 0x02, 0x00, 0x00, 0xFF, 0x00]).unwrap();
    assert_eq!(full.len(), total);
    assert_eq!(&full[0..9], &short[..]);
    // Interface (HID class), HID descriptor, and the two endpoints.
    assert_eq!((full[9], full[10], full[14]), (9, 4, 3));
    assert_eq!((full[18], full[19]), (9, 0x21));
    assert_eq!((full[27], full[28], full[29]), (7, 5, 0x81));
    assert_eq!((full[34], full[35], full[36]), (7, 5, 0x02));
}

#[test]
fn test_report_descriptor_read() {
    // GetDescriptor(HID report) on the interface returns the FIDO report
    // descriptor verbatim.
    let dev = Device::new();
    let d = ep0_in(&dev, &[0x81, 0x06, 0x00, 0x22, 0x00, 0x00, 0xFF, 0x00]).unwrap();
    assert_eq!(d.len(), 34);
    assert_eq!(&d[0..5], &[0x06, 0xD0, 0xF1, 0x09, 0x01]);
    assert_eq!(d[33], 0xC0);
}

#[test]
fn test_string_descriptors() {
    let dev = Device::new();
    let lang = ep0_in(&dev, &[0x80, 0x06, 0x00, 0x03, 0x00, 0x00, 0xFF, 0x00]).unwrap();
    assert_eq!(lang, vec![0x04, 0x03, 0x09, 0x04]);
    let s1 = ep0_in(&dev, &[0x80, 0x06, 0x01, 0x03, 0x09, 0x04, 0xFF, 0x00]).unwrap();
    assert_eq!(s1[0] as usize, s1.len());
    assert_eq!(s1[1], 3);
    let text: Vec<u8> = s1[2..].iter().step_by(2).copied().collect();
    assert_eq!(&text, b"Fakecompany");
    // Index 9 does not exist: stall.
    assert!(ep0_in(&dev, &[0x80, 0x06, 0x09, 0x03, 0x09, 0x04, 0xFF, 0x00]).is_none());
}

#[test]
fn test_get_status_and_out_requests() {
    let dev = Device::new();
    let st = ep0_in(&dev, &[0x80, 0x00, 0x00, 0x00, 0x00, 0x00, 0x02, 0x00]).unwrap();
    assert_eq!(st, vec![0x01, 0x00]); // self-powered
    // SetConfiguration and SetIdle are acknowledged as no-ops.
    let set_conf = SetupPacket::unpack(&[0x00, 0x09, 0x00, 0x00, 0x00, 0x00, 0x00, 0x00]).unwrap();
    assert!(matches!(dev.ep0_host2dev(set_conf), Ep0Reply::Ack));
    let set_idle = SetupPacket::unpack(&[0x21, 0x0A, 0x00, 0x00, 0x00, 0x00, 0x00, 0x00]).unwrap();
    assert!(matches!(dev.ep0_host2dev(set_idle), Ep0Reply::Ack));
    // An unsupported request stalls instead of crashing.
    let odd = SetupPacket::unpack(&[0x00, 0x05, 0x01, 0x00, 0x00, 0x00, 0x00, 0x00]).unwrap();
    assert!(matches!(dev.ep0_host2dev(odd), Ep0Reply::Stall));
}

#[test]
fn test_descriptor_reads_ascending_lengths() {
    // Reads with ascending wLength agree on their common prefix, so the
    // host's read-short-then-long dance reconstructs the exact table.
    let dev = Device::new();
    let mut last: Option<Vec<u8>> = None;
    for wlen in [4u8, 9, 18, 32, 64] {
        let d = ep0_in(&dev, &[0x80, 0x06, 0x00, 0x01, 0x00, 0x00, wlen, 0x00]).unwrap();
        if let Some(prev) = &last {
            assert_eq!(&d[0..prev.len().min(d.len())], &prev[0..prev.len().min(d.len())]);
        }
        last = Some(d);
    }
    assert_eq!(last.unwrap().len(), 18);
}

#[test]
fn test_get_info_cbor() {
    // CBOR payload 04 replies 00 followed by a map with the versions, the
    // AAGUID and up=true; cross-checked with an independent CBOR parser.
    let mut auth = AuthState::new();
    let step = handle_cbor(&mut auth, &[0x04]);
    let reply = match step {
        softfido::auth::Step::Reply(v) => v,
        softfido::auth::Step::Pending(_) => panic!("GetInfo answers at once"),
    };
    assert_eq!(reply[0], 0x00);
    let value: Value = serde_cbor::from_slice(&reply[1..]).expect("well-formed CBOR");
    let map = match value {
        Value::Map(m) => m,
        _ => panic!("GetInfo carries a map"),
    };
    match map.get(&Value::Integer(1)).expect("versions") {
        Value::Array(versions) => {
            assert_eq!(versions[0], Value::Text("U2F_V2".to_string()));
            assert_eq!(versions[1], Value::Text("FIDO_2_0".to_string()));
        },
        _ => panic!("versions is an array"),
    }
    match map.get(&Value::Integer(3)).expect("aaguid") {
        Value::Bytes(b) => assert_eq!(b, &softfido::ctap2::aaguid()),
        _ => panic!("aaguid is a byte string"),
    }
    match map.get(&Value::Integer(4)).expect("options") {
        Value::Map(options) => {
            assert_eq!(
                options.get(&Value::Text("up".to_string())),
                Some(&Value::Bool(true))
            );
            assert_eq!(
                options.get(&Value::Text("clientPin".to_string())),
                Some(&Value::Bool(false))
            );
        },
        _ => panic!("options is a map"),
    }
    assert_eq!(map.get(&Value::Integer(5)), Some(&Value::Integer(1200)));
    // With a PIN set, clientPin flips to true.
    let with_pin = get_info_response(true);
    let v2: Value = serde_cbor::from_slice(&with_pin[1..]).unwrap();
    match v2 {
        Value::Map(m) => match m.get(&Value::Integer(4)).unwrap() {
            Value::Map(options) => assert_eq!(
                options.get(&Value::Text("clientPin".to_string())),
                Some(&Value::Bool(true))
            ),
            _ => panic!(),
        },
        _ => panic!(),
    }
}

#[test]
fn test_setup_packet_with_reserved_recipient() {
    // Recipient bits above 3 are reserved: the packet is undecodable.
    assert!(SetupPacket::unpack(&[0x84, 0x06, 0x00, 0x01, 0x00, 0x00, 0x12, 0x00]).is_none());
}
