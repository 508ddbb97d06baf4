use icmp_ping::{parse_arg, parse_u16, split_fields, Arg, Error, Ipv4Address, RequestsToSend, TransmissionInterval};

fn addr(a: u8, b: u8, c: u8, d: u8) -> Ipv4Address {
    Ipv4Address { octets: [a, b, c, d] }
}

#[test]
fn requests_in_range_are_accepted() {
    for n in 1..=10u16 {
        assert_eq!(RequestsToSend::try_from(&n.to_string()), Ok(RequestsToSend(n)));
    }
}

#[test]
fn requests_out_of_range_are_rejected() {
    assert_eq!(RequestsToSend::try_from("0"), Err(Error::NoRequests));
    assert_eq!(RequestsToSend::try_from("11"), Err(Error::TooManyRequests));
    assert_eq!(RequestsToSend::try_from("65535"), Err(Error::TooManyRequests));
    assert_eq!(RequestsToSend::try_from("65536"), Err(Error::NumberParsing));
    assert_eq!(RequestsToSend::try_from("100000"), Err(Error::NumberParsing));
    assert_eq!(RequestsToSend::try_from(""), Err(Error::NumberParsing));
    assert_eq!(RequestsToSend::try_from("-1"), Err(Error::NumberParsing));
}

#[test]
fn request_messages() {
    assert_eq!(Error::NoRequests.description(), "at least one ping must be requested");
    assert_eq!(Error::TooManyRequests.description(), "only ten or less requests are supported");
    assert_eq!(Error::ZeroInterval.description(), "zero interval is not supported");
    assert_eq!(Error::IntervalTooLong.description(), "only one second or less intervals supported");
}

#[test]
fn intervals_in_range_are_accepted() {
    assert_eq!(TransmissionInterval::try_from("1"), Ok(TransmissionInterval(1)));
    assert_eq!(TransmissionInterval::try_from("250"), Ok(TransmissionInterval(250)));
    assert_eq!(TransmissionInterval::try_from("1000"), Ok(TransmissionInterval(1000)));
}

#[test]
fn intervals_out_of_range_are_rejected() {
    assert_eq!(TransmissionInterval::try_from("0"), Err(Error::ZeroInterval));
    assert_eq!(TransmissionInterval::try_from("1001"), Err(Error::IntervalTooLong));
    assert_eq!(TransmissionInterval::try_from("abc"), Err(Error::NumberParsing));
}

#[test]
fn decimal_numbers_read_like_u16_from_str() {
    assert_eq!(parse_u16("0"), Some(0));
    assert_eq!(parse_u16("+42"), Some(42));
    assert_eq!(parse_u16("007"), Some(7));
    assert_eq!(parse_u16("65535"), Some(65535));
    assert_eq!(parse_u16("65536"), None);
    assert_eq!(parse_u16("+"), None);
    assert_eq!(parse_u16("1 "), None);
    assert_eq!(parse_u16(""), None);
}

#[test]
fn split_keeps_empty_pieces() {
    assert_eq!(split_fields("a,,b", ','), vec!["a", "", "b"]);
    assert_eq!(split_fields("", ','), vec![""]);
    assert_eq!(split_fields(",", ','), vec!["", ""]);
}

#[test]
fn fewer_than_three_fields_is_a_usage_error() {
    assert_eq!(parse_arg(""), Err(Error::Usage));
    assert_eq!(parse_arg("10.0.0.1"), Err(Error::Usage));
    assert_eq!(parse_arg("10.0.0.1,5"), Err(Error::Usage));
    assert_eq!(parse_arg("garbage,0"), Err(Error::Usage));
}

#[test]
fn more_than_three_fields_is_a_usage_error() {
    assert_eq!(parse_arg("10.0.0.1,5,100,7"), Err(Error::Usage));
}

#[test]
fn address_errors() {
    assert_eq!(parse_arg("10.0.0,5,100"), Err(Error::AddressParsing));
    assert_eq!(parse_arg("10.0.0.256,5,100"), Err(Error::AddressParsing));
    assert_eq!(parse_arg("10.0.0.01,5,100"), Err(Error::AddressParsing));
    assert_eq!(parse_arg("host,5,100"), Err(Error::AddressParsing));
    assert_eq!(Ipv4Address::parse("192.0.2.1"), Some(addr(192, 0, 2, 1)));
    assert_eq!(Ipv4Address::parse("0.0.0.0"), Some(addr(0, 0, 0, 0)));
    assert_eq!(Ipv4Address::parse("+1.2.3.4"), None);
    assert_eq!(Ipv4Address::parse("1.2.3.4."), None);
}

#[test]
fn field_errors_come_left_to_right() {
    assert_eq!(parse_arg("10.0.0.1,0,0"), Err(Error::NoRequests));
    assert_eq!(parse_arg("10.0.0.1,11,100"), Err(Error::TooManyRequests));
    assert_eq!(parse_arg("10.0.0.1,5,1001"), Err(Error::IntervalTooLong));
    assert_eq!(parse_arg("10.0.0.1,5,x"), Err(Error::NumberParsing));
}

#[test]
fn parse_and_render_round_trip() {
    let arg = parse_arg("10.0.0.1,5,100").unwrap();
    assert_eq!(arg.destination, addr(10, 0, 0, 1));
    assert_eq!(arg.requests, RequestsToSend(5));
    assert_eq!(arg.interval, TransmissionInterval(100));
    assert_eq!(arg.render(), "10.0.0.1,5,100");
}

#[test]
fn render_then_parse_gives_the_fields() {
    let arg = Arg::from((addr(255, 0, 10, 99), RequestsToSend(10), TransmissionInterval(1000)));
    assert_eq!(arg.render(), "255.0.10.99,10,1000");
    assert_eq!(parse_arg(&arg.render()), Ok(arg));
}
