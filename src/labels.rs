//! Enumerations of the audio subsystem and their printable labels.
use vstd::prelude::*;
use vstd::string::StringExecFns;

verus! {

/// Direction in which a device moves audio.
#[derive(Clone, Copy, Debug, PartialEq, Eq, Structural)]
pub enum DataFlow {
    Render,
    Capture,
    All,
}

/// Which neighbours of a node are enumerated when the walk expands it.
#[derive(Clone, Copy, Debug, PartialEq, Eq, Structural)]
pub enum Direction {
    Incoming,
    Outgoing,
}

/// Structural tag of a topology node.
#[derive(Clone, Copy, Debug, PartialEq, Eq, Structural)]
pub enum PartType {
    Connector,
    Subunit,
    /// A tag the platform reported that is neither of the two above.
    Unrecognised(i32),
}

/// How a connector is wired.
#[derive(Clone, Copy, Debug, PartialEq, Eq, Structural)]
pub enum ConnectorKind {
    Unknown,
    PhysicalInternal,
    PhysicalExternal,
    SoftwareIO,
    SoftwareFixed,
    Network,
    /// A kind the platform reported that is none of the above.
    Unrecognised(i32),
}

/// Render devices expand towards their sources; every other flow expands
/// towards what the node feeds.
pub open spec fn expansion_direction(flow: DataFlow) -> Direction {
    match flow {
        DataFlow::Render => Direction::Incoming,
        _ => Direction::Outgoing,
    }
}

pub fn direction_for(flow: DataFlow) -> (r: Direction)
    ensures
        r == expansion_direction(flow),
{
    match flow {
        DataFlow::Render => Direction::Incoming,
        _ => Direction::Outgoing,
    }
}

pub open spec fn data_flow_spec(code: i32) -> Option<DataFlow> {
    if code == 0 {
        Some(DataFlow::Render)
    } else if code == 1 {
        Some(DataFlow::Capture)
    } else if code == 2 {
        Some(DataFlow::All)
    } else {
        None
    }
}

/// The flow named by the platform's numeric code, if it names one.
pub fn data_flow_from_code(code: i32) -> (r: Option<DataFlow>)
    ensures
        r == data_flow_spec(code),
{
    if code == 0 {
        Some(DataFlow::Render)
    } else if code == 1 {
        Some(DataFlow::Capture)
    } else if code == 2 {
        Some(DataFlow::All)
    } else {
        None
    }
}

/// The flow that steers a walk: the device's own, or `All` for a code that names none.
pub fn walk_flow(code: i32) -> (r: DataFlow)
    ensures
        r == match data_flow_spec(code) {
            Some(f) => f,
            None => DataFlow::All,
        },
{
    match data_flow_from_code(code) {
        Some(f) => f,
        None => DataFlow::All,
    }
}

pub open spec fn part_type_spec(code: i32) -> PartType {
    if code == 0 {
        PartType::Connector
    } else if code == 1 {
        PartType::Subunit
    } else {
        PartType::Unrecognised(code)
    }
}

/// The structural tag named by the platform's numeric code.
pub fn part_type_from_code(code: i32) -> (r: PartType)
    ensures
        r == part_type_spec(code),
{
    if code == 0 {
        PartType::Connector
    } else if code == 1 {
        PartType::Subunit
    } else {
        PartType::Unrecognised(code)
    }
}

pub open spec fn connector_kind_spec(code: i32) -> ConnectorKind {
    if code == 0 {
        ConnectorKind::Unknown
    } else if code == 1 {
        ConnectorKind::PhysicalInternal
    } else if code == 2 {
        ConnectorKind::PhysicalExternal
    } else if code == 3 {
        ConnectorKind::SoftwareIO
    } else if code == 4 {
        ConnectorKind::SoftwareFixed
    } else if code == 5 {
        ConnectorKind::Network
    } else {
        ConnectorKind::Unrecognised(code)
    }
}

/// The connector kind named by the platform's numeric code.
pub fn connector_kind_from_code(code: i32) -> (r: ConnectorKind)
    ensures
        r == connector_kind_spec(code),
{
    if code == 0 {
        ConnectorKind::Unknown
    } else if code == 1 {
        ConnectorKind::PhysicalInternal
    } else if code == 2 {
        ConnectorKind::PhysicalExternal
    } else if code == 3 {
        ConnectorKind::SoftwareIO
    } else if code == 4 {
        ConnectorKind::SoftwareFixed
    } else if code == 5 {
        ConnectorKind::Network
    } else {
        ConnectorKind::Unrecognised(code)
    }
}

pub open spec fn digit_char(d: nat) -> char {
    if d == 0 {
        '0'
    } else if d == 1 {
        '1'
    } else if d == 2 {
        '2'
    } else if d == 3 {
        '3'
    } else if d == 4 {
        '4'
    } else if d == 5 {
        '5'
    } else if d == 6 {
        '6'
    } else if d == 7 {
        '7'
    } else if d == 8 {
        '8'
    } else {
        '9'
    }
}

/// Decimal digits of `n`, most significant first, without leading zeros.
pub open spec fn decimal(n: nat) -> Seq<char>
    decreases n,
{
    if n < 10 {
        seq![digit_char(n)]
    } else {
        decimal(n / 10).push(digit_char(n % 10))
    }
}

fn digit_str(d: u32) -> (r: &'static str)
    requires
        d < 10,
    ensures
        r@ == seq![digit_char(d as nat)],
{
    proof {
        reveal_strlit("0");
        reveal_strlit("1");
        reveal_strlit("2");
        reveal_strlit("3");
        reveal_strlit("4");
        reveal_strlit("5");
        reveal_strlit("6");
        reveal_strlit("7");
        reveal_strlit("8");
        reveal_strlit("9");
    }
    if d == 0 {
        "0"
    } else if d == 1 {
        "1"
    } else if d == 2 {
        "2"
    } else if d == 3 {
        "3"
    } else if d == 4 {
        "4"
    } else if d == 5 {
        "5"
    } else if d == 6 {
        "6"
    } else if d == 7 {
        "7"
    } else if d == 8 {
        "8"
    } else {
        "9"
    }
}

/// Appends the decimal digits of `n` to `out`.
pub fn push_decimal(n: u32, out: &mut String)
    ensures
        final(out)@ == old(out)@ + decimal(n as nat),
    decreases n,
{
    if n >= 10 {
        push_decimal(n / 10, out);
    }
    out.append(digit_str(n % 10));
    proof {
        if n >= 10 {
            assert(old(out)@ + decimal(n as nat / 10) + seq![digit_char(n as nat % 10)]
                =~= old(out)@ + decimal(n as nat));
        } else {
            assert(old(out)@ + seq![digit_char(n as nat % 10)] =~= old(out)@ + decimal(n as nat));
        }
    }
}

/// Label of a lifecycle state code, if the code names one.
pub open spec fn state_label(state: u32) -> Option<Seq<char>> {
    if state == 1 {
        Some("DEVICE_STATE_ACTIVE '1'"@)
    } else if state == 2 {
        Some("DEVICE_STATE_DISABLED '2'"@)
    } else if state == 4 {
        Some("DEVICE_STATE_NOTPRESENT '4'"@)
    } else if state == 8 {
        Some("DEVICE_STATE_UNPLUGGED '8'"@)
    } else {
        None
    }
}

/// Message for a state code that names no lifecycle state.
pub open spec fn invalid_state_message(state: u32) -> Seq<char> {
    "The state '"@ + decimal(state as nat) + "' is invalid!"@
}

/// Label of a lifecycle state; an error message for any other code.
pub fn state_to_string(state: u32) -> (r: Result<String, String>)
    ensures
        state_label(state) is Some ==> r is Ok && r->Ok_0@ == state_label(state)->0,
        state_label(state) is None ==> r is Err && r->Err_0@ == invalid_state_message(state),
{
    if state == 1 {
        Ok(String::from_str("DEVICE_STATE_ACTIVE '1'"))
    } else if state == 2 {
        Ok(String::from_str("DEVICE_STATE_DISABLED '2'"))
    } else if state == 4 {
        Ok(String::from_str("DEVICE_STATE_NOTPRESENT '4'"))
    } else if state == 8 {
        Ok(String::from_str("DEVICE_STATE_UNPLUGGED '8'"))
    } else {
        let mut msg = String::from_str("The state '");
        push_decimal(state, &mut msg);
        msg.append("' is invalid!");
        Err(msg)
    }
}

pub open spec fn data_flow_label(code: i32) -> Seq<char> {
    if code == 0 {
        "eRender"@
    } else if code == 1 {
        "eCapture"@
    } else if code == 2 {
        "eAll"@
    } else if code == 3 {
        "EDataFlow_enum_count"@
    } else {
        "Unknown"@
    }
}

/// Label of a data-flow code.
pub fn data_flow_to_string(code: i32) -> (r: String)
    ensures
        r@ == data_flow_label(code),
{
    if code == 0 {
        String::from_str("eRender")
    } else if code == 1 {
        String::from_str("eCapture")
    } else if code == 2 {
        String::from_str("eAll")
    } else if code == 3 {
        String::from_str("EDataFlow_enum_count")
    } else {
        String::from_str("Unknown")
    }
}

pub open spec fn part_type_label(part_type: PartType) -> Seq<char> {
    match part_type {
        PartType::Connector => "Connector"@,
        PartType::Subunit => "SubUnit"@,
        PartType::Unrecognised(_) => "Unknown"@,
    }
}

/// Label of a structural tag.
pub fn part_type_to_string(part_type: PartType) -> (r: String)
    ensures
        r@ == part_type_label(part_type),
{
    match part_type {
        PartType::Connector => String::from_str("Connector"),
        PartType::Subunit => String::from_str("SubUnit"),
        PartType::Unrecognised(_) => String::from_str("Unknown"),
    }
}

pub open spec fn connector_kind_label(kind: ConnectorKind) -> Seq<char> {
    match kind {
        ConnectorKind::Unknown => "Unknown_Connector"@,
        ConnectorKind::PhysicalInternal => "Physical_Internal"@,
        ConnectorKind::PhysicalExternal => "Physical_External"@,
        ConnectorKind::SoftwareIO => "Software_IO"@,
        ConnectorKind::SoftwareFixed => "Software_Fixed"@,
        ConnectorKind::Network => "Network"@,
        ConnectorKind::Unrecognised(_) => "Unknown"@,
    }
}

/// Label of a connector kind.
pub fn connector_type_to_string(kind: ConnectorKind) -> (r: String)
    ensures
        r@ == connector_kind_label(kind),
{
    match kind {
        ConnectorKind::Unknown => String::from_str("Unknown_Connector"),
        ConnectorKind::PhysicalInternal => String::from_str("Physical_Internal"),
        ConnectorKind::PhysicalExternal => String::from_str("Physical_External"),
        ConnectorKind::SoftwareIO => String::from_str("Software_IO"),
        ConnectorKind::SoftwareFixed => String::from_str("Software_Fixed"),
        ConnectorKind::Network => String::from_str("Network"),
        ConnectorKind::Unrecognised(_) => String::from_str("Unknown"),
    }
}

} // verus!
