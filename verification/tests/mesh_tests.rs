use kraken_mesh::mesh::{
    handle_inbound, DoASensorState, InboundPacket, MeshPayload, TEXT_MESSAGE_PORT,
};
use kraken_mesh::RelayConfig;

fn text_packet(text: &str) -> InboundPacket {
    InboundPacket::AppData {
        payload: MeshPayload::Decoded { port: TEXT_MESSAGE_PORT, data: text.as_bytes().to_vec() },
    }
}

#[test]
fn outbound_framing_is_the_bare_decimal_string() {
    assert_eq!(DoASensorState { azimuth: 0 }.packet_text(), "0");
    assert_eq!(DoASensorState { azimuth: 42 }.packet_text(), "42");
    assert_eq!(DoASensorState { azimuth: 359 }.packet_text(), "359");
}

#[test]
fn packet_text_handles_extreme_values() {
    assert_eq!(DoASensorState { azimuth: -1 }.packet_text(), "-1");
    assert_eq!(DoASensorState { azimuth: i32::MIN }.packet_text(), "-2147483648");
    assert_eq!(DoASensorState { azimuth: i32::MAX }.packet_text(), "2147483647");
}

#[test]
fn sweep_wraps_after_full_circle() {
    let mut state = DoASensorState { azimuth: 0 };
    let mut transmitted: Vec<String> = Vec::new();
    for _ in 0..361 {
        transmitted.push(state.packet_text());
        state.advance();
    }
    assert_eq!(transmitted[0], "0");
    assert_eq!(transmitted[359], "359");
    assert_eq!(transmitted[360], "0");
}

#[test]
fn leading_zeros_parse_to_the_same_azimuth() {
    let cfg = RelayConfig::default();
    let a = handle_inbound(&cfg, &text_packet("042")).unwrap();
    let b = handle_inbound(&cfg, &text_packet("42")).unwrap();
    assert_eq!(a.azimuth, 42);
    assert_eq!(b.azimuth, 42);
}

#[test]
fn parsed_finding_carries_the_configured_identity() {
    let cfg = RelayConfig::default();
    let soi = handle_inbound(&cfg, &text_packet("87")).unwrap();
    assert_eq!(soi.azimuth, 87);
    assert_eq!(soi.s_contact, "doa-alpha");
    assert_eq!(soi.uid, "sig-0");
    assert_eq!(soi.s_fov, 8);
    assert_eq!(soi.s_range, 10000);
}

#[test]
fn garbage_text_yields_no_finding() {
    let cfg = RelayConfig::default();
    assert!(handle_inbound(&cfg, &text_packet("abc")).is_none());
    assert!(handle_inbound(&cfg, &text_packet("")).is_none());
    assert!(handle_inbound(&cfg, &text_packet("4 2")).is_none());
    assert!(handle_inbound(&cfg, &text_packet("-")).is_none());
}

#[test]
fn signed_azimuths_parse_like_integers() {
    let cfg = RelayConfig::default();
    assert_eq!(handle_inbound(&cfg, &text_packet("-10")).unwrap().azimuth, -10);
    assert_eq!(handle_inbound(&cfg, &text_packet("+7")).unwrap().azimuth, 7);
    assert_eq!(handle_inbound(&cfg, &text_packet("2147483647")).unwrap().azimuth, i32::MAX);
    assert_eq!(handle_inbound(&cfg, &text_packet("-2147483648")).unwrap().azimuth, i32::MIN);
}

#[test]
fn out_of_range_numbers_yield_no_finding() {
    let cfg = RelayConfig::default();
    assert!(handle_inbound(&cfg, &text_packet("2147483648")).is_none());
    assert!(handle_inbound(&cfg, &text_packet("-2147483649")).is_none());
    assert!(handle_inbound(&cfg, &text_packet("99999999999999999999")).is_none());
}

#[test]
fn encrypted_or_empty_payloads_yield_no_finding() {
    let cfg = RelayConfig::default();
    let encrypted = InboundPacket::AppData { payload: MeshPayload::Encrypted };
    let missing = InboundPacket::AppData { payload: MeshPayload::Missing };
    assert!(handle_inbound(&cfg, &encrypted).is_none());
    assert!(handle_inbound(&cfg, &missing).is_none());
}

#[test]
fn unrecognized_ports_and_kinds_yield_no_finding() {
    let cfg = RelayConfig::default();
    let wrong_port = InboundPacket::AppData {
        payload: MeshPayload::Decoded { port: 7, data: b"42".to_vec() },
    };
    assert!(handle_inbound(&cfg, &wrong_port).is_none());
    assert!(handle_inbound(&cfg, &InboundPacket::ChannelInfo).is_none());
    assert!(handle_inbound(&cfg, &InboundPacket::NodeInfo).is_none());
    assert!(handle_inbound(&cfg, &InboundPacket::Other).is_none());
}
