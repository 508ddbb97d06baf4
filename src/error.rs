use vstd::prelude::*;

verus! {

/// Everything that stops the tool before or during a session.
#[derive(Clone, Copy, Debug, PartialEq, Eq)]
pub enum Error {
    /// The argument is not three comma-separated fields.
    Usage,
    /// The destination field is not an IPv4 literal.
    AddressParsing,
    /// A count or interval field is not a 16-bit unsigned decimal number.
    NumberParsing,
    /// More than ten requests were asked for.
    TooManyRequests,
    /// Zero requests were asked for.
    NoRequests,
    /// An interval longer than one second was asked for.
    IntervalTooLong,
    /// A zero interval was asked for.
    ZeroInterval,
    /// The echo request could not be framed.
    PacketBuilding,
    /// A session was handed an event that does not fit its current phase.
    OutOfOrder,
}

impl Error {
    /// The text printed for this error.
    pub fn description(&self) -> (r: &'static str)
        ensures
            *self == Error::Usage ==> r@ == "Usage of ICMP Ping requires an argument consisting of a comma-delimited list of IP address, number of requests, and ping interval"@,
            *self == Error::AddressParsing ==> r@ == "invalid IPv4 address syntax"@,
            *self == Error::NumberParsing ==> r@ == "invalid unsigned 16-bit number"@,
            *self == Error::TooManyRequests ==> r@ == "only ten or less requests are supported"@,
            *self == Error::NoRequests ==> r@ == "at least one ping must be requested"@,
            *self == Error::IntervalTooLong ==> r@ == "only one second or less intervals supported"@,
            *self == Error::ZeroInterval ==> r@ == "zero interval is not supported"@,
            *self == Error::PacketBuilding ==> r@ == "echo request packet could not be built"@,
            *self == Error::OutOfOrder ==> r@ == "session event out of order"@,
    {
        match self {
            Error::Usage => "Usage of ICMP Ping requires an argument consisting of a comma-delimited list of IP address, number of requests, and ping interval",
            Error::AddressParsing => "invalid IPv4 address syntax",
            Error::NumberParsing => "invalid unsigned 16-bit number",
            Error::TooManyRequests => "only ten or less requests are supported",
            Error::NoRequests => "at least one ping must be requested",
            Error::IntervalTooLong => "only one second or less intervals supported",
            Error::ZeroInterval => "zero interval is not supported",
            Error::PacketBuilding => "echo request packet could not be built",
            Error::OutOfOrder => "session event out of order",
        }
    }
}

} // verus!
