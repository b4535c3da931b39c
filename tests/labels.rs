use audio_topology::labels::{
    data_flow_from_code, part_type_from_code, connector_kind_from_code, walk_flow, ConnectorKind,
    DataFlow, PartType,
};
use audio_topology::{
    connector_type_to_string, data_flow_to_string, part_type_to_string, state_to_string,
    u16_to_string,
};

#[test]
fn state_labels_for_known_states() {
    assert_eq!(state_to_string(1), Ok("DEVICE_STATE_ACTIVE '1'".to_string()));
    assert_eq!(state_to_string(2), Ok("DEVICE_STATE_DISABLED '2'".to_string()));
    assert_eq!(state_to_string(4), Ok("DEVICE_STATE_NOTPRESENT '4'".to_string()));
    assert_eq!(state_to_string(8), Ok("DEVICE_STATE_UNPLUGGED '8'".to_string()));
}

#[test]
fn state_label_for_invalid_state() {
    assert_eq!(state_to_string(3), Err("The state '3' is invalid!".to_string()));
    assert_eq!(state_to_string(0), Err("The state '0' is invalid!".to_string()));
    assert_eq!(state_to_string(1024), Err("The state '1024' is invalid!".to_string()));
    assert_eq!(
        state_to_string(u32::MAX),
        Err("The state '4294967295' is invalid!".to_string())
    );
}

#[test]
fn data_flow_labels() {
    assert_eq!(data_flow_to_string(0), "eRender");
    assert_eq!(data_flow_to_string(1), "eCapture");
    assert_eq!(data_flow_to_string(2), "eAll");
    assert_eq!(data_flow_to_string(3), "EDataFlow_enum_count");
    assert_eq!(data_flow_to_string(-1), "Unknown");
}

#[test]
fn data_flow_codes() {
    assert_eq!(data_flow_from_code(0), Some(DataFlow::Render));
    assert_eq!(data_flow_from_code(2), Some(DataFlow::All));
    assert_eq!(data_flow_from_code(3), None);
    assert_eq!(walk_flow(1), DataFlow::Capture);
    assert_eq!(walk_flow(3), DataFlow::All);
}

#[test]
fn part_type_labels() {
    assert_eq!(part_type_from_code(0), PartType::Connector);
    assert_eq!(part_type_from_code(1), PartType::Subunit);
    assert_eq!(part_type_from_code(7), PartType::Unrecognised(7));
    assert_eq!(part_type_to_string(PartType::Connector), "Connector");
    assert_eq!(part_type_to_string(PartType::Subunit), "SubUnit");
    assert_eq!(part_type_to_string(PartType::Unrecognised(7)), "Unknown");
}

#[test]
fn connector_kind_labels() {
    let expected = [
        "Unknown_Connector",
        "Physical_Internal",
        "Physical_External",
        "Software_IO",
        "Software_Fixed",
        "Network",
        "Unknown",
    ];
    for (code, label) in expected.iter().enumerate() {
        assert_eq!(connector_type_to_string(connector_kind_from_code(code as i32)), *label);
    }
    assert_eq!(connector_kind_from_code(3), ConnectorKind::SoftwareIO);
    assert_eq!(connector_kind_from_code(9), ConnectorKind::Unrecognised(9));
}

#[test]
fn utf16_text_stops_at_nul() {
    let mut buf = [0u16; 200];
    for (i, u) in "{a45b}".encode_utf16().enumerate() {
        buf[i] = u;
    }
    assert_eq!(u16_to_string(&buf), "{a45b}");
    assert_eq!(u16_to_string(&[72, 105, 0, 88]), "Hi");
}

#[test]
fn utf16_text_without_nul_and_empty() {
    assert_eq!(u16_to_string(&[72, 105]), "Hi");
    assert_eq!(u16_to_string(&[]), "");
    assert_eq!(u16_to_string(&[0, 72]), "");
    assert_eq!(u16_to_string(&[0xD800, 0]), "\u{FFFD}");
}
