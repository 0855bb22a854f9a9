use portredirect::server::tcp_listener::{listener_step, ListenerAction, ListenerEvent};
use portredirect::server::metrics_printer::metrics_changed;
use std::str::FromStr;
use portredirect::server::{
    merge_allowed_ports, parse_port_spec, AllowedPorts, IntParseError, PortSpec, PortSpecError,
};

#[test]
fn port_spec_allows() {
    assert!(PortSpec::Single(80).allows(80));
    assert!(!PortSpec::Single(80).allows(81));
    assert!(PortSpec::Range(8000, 9000).allows(8000));
    assert!(PortSpec::Range(8000, 9000).allows(9000));
    assert!(!PortSpec::Range(8000, 9000).allows(9001));
    assert!(!PortSpec::Range(8000, 9000).allows(7999));
}

#[test]
fn allowed_ports_example() {
    let port = 12345;
    let allowed_ports: Vec<PortSpec> = vec![
        PortSpec::Single(80),
        PortSpec::Range(8000, 9000),
        PortSpec::Single(12345),
    ];
    assert!(allowed_ports.allows(port));
    assert!(allowed_ports.allows(8500));
    assert!(!allowed_ports.allows(443));
    let none: Vec<PortSpec> = Vec::new();
    assert!(!none.allows(80));
}

#[test]
fn parse_single_and_range() {
    assert_eq!(parse_port_spec("80"), Ok(PortSpec::Single(80)));
    assert_eq!(" 443 ".parse::<PortSpec>(), Ok(PortSpec::Single(443)));
    assert_eq!(parse_port_spec("1000-2000"), Ok(PortSpec::Range(1000, 2000)));
    assert_eq!(parse_port_spec(" 1000 - 2000 "), Ok(PortSpec::Range(1000, 2000)));
    assert_eq!(parse_port_spec("5-5"), Ok(PortSpec::Range(5, 5)));
    assert_eq!(parse_port_spec("+80"), Ok(PortSpec::Single(80)));
    assert_eq!(parse_port_spec("\u{3000}65535\u{a0}"), Ok(PortSpec::Single(65535)));
    assert_eq!(parse_port_spec("0"), Ok(PortSpec::Single(0)));
}

#[test]
fn parse_errors() {
    assert_eq!(parse_port_spec("2000-1000"), Err(PortSpecError::InvalidRange(2000, 1000)));
    assert_eq!(parse_port_spec(""), Err(PortSpecError::InvalidPort(IntParseError::Empty)));
    assert_eq!(parse_port_spec("   "), Err(PortSpecError::InvalidPort(IntParseError::Empty)));
    assert_eq!(parse_port_spec("abc"), Err(PortSpecError::InvalidPort(IntParseError::InvalidDigit)));
    assert_eq!(parse_port_spec("65536"), Err(PortSpecError::InvalidPort(IntParseError::PosOverflow)));
    assert_eq!(parse_port_spec("99999a"), Err(PortSpecError::InvalidPort(IntParseError::PosOverflow)));
    assert_eq!(parse_port_spec("9a9999"), Err(PortSpecError::InvalidPort(IntParseError::InvalidDigit)));
    assert_eq!(parse_port_spec("+"), Err(PortSpecError::InvalidPort(IntParseError::InvalidDigit)));
    assert_eq!(parse_port_spec("-80"), Err(PortSpecError::InvalidStartPort(IntParseError::Empty)));
    assert_eq!(parse_port_spec("80-"), Err(PortSpecError::InvalidEndPort(IntParseError::Empty)));
    assert_eq!(parse_port_spec("80-x"), Err(PortSpecError::InvalidEndPort(IntParseError::InvalidDigit)));
    assert_eq!(parse_port_spec("1-2-3"), Err(PortSpecError::InvalidEndPort(IntParseError::InvalidDigit)));
    assert_eq!(parse_port_spec("8 0"), Err(PortSpecError::InvalidPort(IntParseError::InvalidDigit)));
}

#[test]
fn parse_agrees_with_std_on_numbers() {
    for s in ["0", "1", "00080", "+7", "65535", "65536", "", "+", "-", "-1", "1x", "x1", "٣", "99999999999"] {
        let ours = parse_port_spec(s);
        match s.trim().parse::<u16>() {
            Ok(p) if !s.contains('-') => assert_eq!(ours, Ok(PortSpec::Single(p)), "{:?}", s),
            Ok(_) => {}
            Err(_) => assert!(ours.is_err(), "{:?}", s),
        }
    }
}

#[test]
fn merge_ports() {
    assert_eq!(merge_allowed_ports(None, None), Vec::<PortSpec>::new());
    assert_eq!(merge_allowed_ports(None, Some(443)), vec![PortSpec::Single(443)]);
    assert_eq!(
        merge_allowed_ports(Some(vec![PortSpec::Range(1, 2)]), Some(443)),
        vec![PortSpec::Range(1, 2), PortSpec::Single(443)]
    );
    assert_eq!(merge_allowed_ports(Some(vec![PortSpec::Single(8)]), None), vec![PortSpec::Single(8)]);
}

#[test]
fn port_text_round_trips() {
    for p in [0u16, 7, 80, 443, 8080, 65535] {
        assert_eq!(PortSpec::from_str(&p.to_string()), Ok(PortSpec::Single(p)));
        assert_eq!(PortSpec::from_str(&format!("\t{} \n", p)), Ok(PortSpec::Single(p)));
    }
    for (s, e) in [(0u16, 0u16), (1000, 2000), (443, 443), (1, 65535)] {
        assert_eq!(PortSpec::from_str(&format!("{}-{}", s, e)), Ok(PortSpec::Range(s, e)));
        assert_eq!(PortSpec::from_str(&format!(" {} - {} ", s, e)), Ok(PortSpec::Range(s, e)));
    }
}

#[test]
fn tcp_listener_decisions() {
    assert_eq!(listener_step(ListenerEvent::Cancelled), ListenerAction::Stop);
    assert_eq!(listener_step(ListenerEvent::AcceptFailed), ListenerAction::CountAcceptFailure);
    assert_eq!(listener_step(ListenerEvent::Accepted), ListenerAction::OpenQuicStream);
    assert_eq!(listener_step(ListenerEvent::StreamOpenFailed), ListenerAction::ShutDownTcp);
    assert_eq!(listener_step(ListenerEvent::StreamOpened), ListenerAction::StartForwarding);
}

#[test]
fn port_spec_error_messages_match_the_standard_texts() {
    let empty = "".parse::<u16>().unwrap_err().to_string();
    let digit = "x".parse::<u16>().unwrap_err().to_string();
    let large = "70000".parse::<u16>().unwrap_err().to_string();
    assert_eq!(IntParseError::Empty.text(), empty);
    assert_eq!(IntParseError::InvalidDigit.text(), digit);
    assert_eq!(IntParseError::PosOverflow.text(), large);
    assert_eq!(
        PortSpecError::InvalidStartPort(IntParseError::InvalidDigit).message(),
        format!("Invalid start port: {}", digit)
    );
    assert_eq!(
        PortSpecError::InvalidEndPort(IntParseError::Empty).message(),
        format!("Invalid end port: {}", empty)
    );
    assert_eq!(PortSpecError::InvalidRange(9000, 80).message(), "Invalid range: 9000-80");
    assert_eq!(PortSpecError::InvalidRange(0, 65535).message(), "Invalid range: 0-65535");
    assert_eq!(
        PortSpecError::InvalidPort(IntParseError::PosOverflow).message(),
        format!("Invalid port: {}", large)
    );
    assert_eq!(
        PortSpec::from_str("2000-1000").unwrap_err().message(),
        "Invalid range: 2000-1000"
    );
}

#[test]
fn metrics_are_printed_first_and_on_change() {
    assert!(metrics_changed(None, &[0, 0]));
    assert!(!metrics_changed(Some(&[1, 2, 3]), &[1, 2, 3]));
    assert!(metrics_changed(Some(&[1, 2, 3]), &[1, 2, 4]));
    assert!(metrics_changed(Some(&[1, 2]), &[1, 2, 0]));
}
