use kraken_mesh::cot::{
    cot_message_now, event_from_finding, Archive, BoolVal, Contact, Detail, Event, FloatVal,
    IntVal, Link, Point, Remark, Sensor,
};
use kraken_mesh::{finding_for_azimuth, RDoASOI, RelayConfig};

fn sample_finding(azimuth: i32) -> RDoASOI {
    let cfg = RelayConfig::default();
    finding_for_azimuth(&cfg, azimuth)
}

#[test]
fn full_event_encoding_exact() {
    let soi = sample_finding(87);
    let e = event_from_finding(&soi, 1700000000);
    let xml = e.to_xml();
    let mut expected = String::new();
    expected.push_str("<event version=\"2.0\" uid=\"sig-0\" type=\"a-f-G-U-C\"");
    expected.push_str(" time=\"2023-11-14T22:13:20Z\" start=\"2023-11-14T22:13:20Z\"");
    expected.push_str(" stale=\"2023-11-14T23:13:20Z\" how=\"m-g\">");
    expected.push_str("<detail>");
    expected.push_str("<sensor vfov=\"8\" elevation=\"0\" fovBlue=\"0\" fovRed=\"1\"");
    expected.push_str(" strokeWeight=\"0\" roll=\"0\" range=\"10000\" azimuth=\"87\"");
    expected.push_str(" rangeLineStrokeWeight=\"0.55\" fov=\"8\" rangeLineStrokeColor=\"-16777216\"");
    expected.push_str(" fovGreen=\"0\" fovLabels=\"true\" displayMagneticReference=\"0\"");
    expected.push_str(" strokeColor=\"-16777216\" rangeLines=\"500\" fovAlpha=\"0.2627451\" />");
    expected.push_str("<strokeColor value=\"-1\" />");
    expected.push_str("<strokeWeight value=\"4\" />");
    expected.push_str("<fillColor value=\"-1761607681\" />");
    expected.push_str("<contact callsign=\"doa-alpha\" />");
    expected.push_str("<archive />");
    expected.push_str("<labels_on value=\"false\" />");
    expected.push_str("<color value=\"-1\" />");
    expected.push_str("</detail>");
    expected.push_str("<point lat=\"12\" lon=\"12\" ce=\"10\" hae=\"10\" le=\"10\" />");
    expected.push_str("</event>\n\n");
    assert_eq!(xml, expected);
}

#[test]
fn encoding_is_deterministic() {
    let soi = sample_finding(123);
    let e = event_from_finding(&soi, 1700000000);
    let first = e.to_xml();
    let second = e.to_xml();
    assert_eq!(first.as_bytes(), second.as_bytes());
}

#[test]
fn stale_is_start_plus_one_hour() {
    let soi = sample_finding(0);
    let e = event_from_finding(&soi, 0);
    assert_eq!(e.time, 0);
    assert_eq!(e.start, 0);
    assert_eq!(e.stale - e.start, 3600);
    let xml = e.to_xml();
    assert!(xml.contains("time=\"1970-01-01T00:00:00Z\""));
    assert!(xml.contains("start=\"1970-01-01T00:00:00Z\""));
    assert!(xml.contains("stale=\"1970-01-01T01:00:00Z\""));
}

#[test]
fn framing_two_newlines_no_declaration() {
    let soi = sample_finding(5);
    let e = event_from_finding(&soi, 1000000);
    let xml = e.to_xml();
    assert!(xml.ends_with("\n\n"));
    assert!(!xml.ends_with("\n\n\n"));
    assert!(xml.starts_with("<event "));
    assert!(!xml.contains("<?xml"));
    assert!(!xml[..xml.len() - 2].contains('\n'));
}

#[test]
fn attribute_values_are_escaped() {
    let cfg = RelayConfig {
        contact: "A&B<C>\"D'E".to_string(),
        uid: "sig<&>".to_string(),
        fov_degrees: 8,
        range_meters: 10000,
    };
    let soi = finding_for_azimuth(&cfg, 1);
    let e = event_from_finding(&soi, 1700000000);
    let xml = e.to_xml();
    assert!(xml.contains("callsign=\"A&amp;B&lt;C&gt;&quot;D&apos;E\""));
    assert!(xml.contains("uid=\"sig&lt;&amp;&gt;\""));
}

#[test]
fn links_and_remarks_render_as_repeated_elements() {
    let e = Event {
        version: "2.0".to_string(),
        uid: "u".to_string(),
        uid_type: "a-f-G-U-C".to_string(),
        time: 100,
        start: 100,
        stale: 3700,
        how: "m-g".to_string(),
        detail: Detail {
            sensor: Sensor {
                vfov: 1,
                elevation: 0,
                fov_blue: "0".to_string(),
                fov_red: "1".to_string(),
                stroke_weight: "0".to_string(),
                roll: 0,
                range: 2,
                azimuth: 3,
                range_line_stroke_weight: "0.55".to_string(),
                fov: 1,
                range_line_stroke_color: -16777216,
                fov_green: "0".to_string(),
                fov_labels: true,
                display_magnetic_reference: 0,
                stroke_color: -16777216,
                range_lines: 500,
                fov_alpha: "0.2627451".to_string(),
            },
            link: vec![Link { point: "p1".to_string() }, Link { point: "p2".to_string() }],
            stroke_color: IntVal { value: -1 },
            stroke_weight: FloatVal { value: "4".to_string() },
            fill_color: IntVal { value: -1 },
            contact: Contact { callsign: "c".to_string() },
            remarks: vec![Remark {}, Remark {}],
            archive: Archive {},
            labels_on: BoolVal { value: false },
            color: IntVal { value: -1 },
        },
        point: Point {
            lat: "12".to_string(),
            lon: "12".to_string(),
            ce: "10".to_string(),
            hae: "10".to_string(),
            le: "10".to_string(),
        },
    };
    let xml = e.to_xml();
    assert!(xml.contains("<link point=\"p1\" /><link point=\"p2\" />"));
    assert!(xml.contains("<remark /><remark />"));
    assert!(xml.contains("<archive />"));
}

#[test]
fn default_config_matches_deployment() {
    let cfg = RelayConfig::default();
    assert_eq!(cfg.contact, "doa-alpha");
    assert_eq!(cfg.uid, "sig-0");
    assert_eq!(cfg.fov_degrees, 8);
    assert_eq!(cfg.range_meters, 10000);
}

#[test]
fn configured_fov_and_range_render() {
    let cfg = RelayConfig {
        contact: "station-nine".to_string(),
        uid: "u1".to_string(),
        fov_degrees: 30,
        range_meters: 2500,
    };
    let soi = finding_for_azimuth(&cfg, 200);
    let e = event_from_finding(&soi, 1700000000);
    let xml = e.to_xml();
    assert!(xml.contains("vfov=\"30\""));
    assert!(xml.contains(" fov=\"30\""));
    assert!(xml.contains(" range=\"2500\""));
    assert!(xml.contains("azimuth=\"200\""));
    assert!(xml.contains("uid=\"u1\""));
    assert!(xml.contains("callsign=\"station-nine\""));
}

#[test]
fn message_now_is_framed() {
    let soi = sample_finding(44);
    let msg = cot_message_now(&soi).expect("system clock should be in range");
    assert!(msg.starts_with("<event "));
    assert!(msg.contains("uid=\"sig-0\""));
    assert!(msg.contains("azimuth=\"44\""));
    assert!(msg.ends_with("\n\n"));
}
