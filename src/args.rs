use vstd::prelude::*;
use crate::address::{address_spec, dotted_spec, lemma_address_round_trip, lemma_digits_exclude, Ipv4Address};
use crate::error::Error;
use crate::text::{
    decimal_spec, lemma_decimal_digits, lemma_split_join, lemma_split_single, parse_u16,
    parse_u16_spec, push_decimal, split_fields, split_spec,
};

verus! {

/// How many echo requests a session sends.
#[derive(Clone, Copy, Debug, PartialEq, Eq)]
pub struct RequestsToSend(pub u16);

/// The pause before each echo request, in milliseconds.
#[derive(Clone, Copy, Debug, PartialEq, Eq)]
pub struct TransmissionInterval(pub u16);

/// A validated command-line argument.
#[derive(Clone, Copy, Debug, PartialEq, Eq)]
pub struct Arg {
    pub destination: Ipv4Address,
    pub requests: RequestsToSend,
    pub interval: TransmissionInterval,
}

pub open spec fn requests_spec(t: Seq<char>) -> Result<u16, Error> {
    match parse_u16_spec(t) {
        None => Err(Error::NumberParsing),
        Some(x) => if x > 10 {
            Err(Error::TooManyRequests)
        } else if x == 0 {
            Err(Error::NoRequests)
        } else {
            Ok(x)
        },
    }
}

pub open spec fn interval_spec(t: Seq<char>) -> Result<u16, Error> {
    match parse_u16_spec(t) {
        None => Err(Error::NumberParsing),
        Some(x) => if x > 1000 {
            Err(Error::IntervalTooLong)
        } else if x == 0 {
            Err(Error::ZeroInterval)
        } else {
            Ok(x)
        },
    }
}

/// What an argument string denotes: destination octets, request count and
/// interval, or the first error met reading the fields from left to right.
pub open spec fn arg_spec(s: Seq<char>) -> Result<(Seq<u8>, u16, u16), Error> {
    let f = split_spec(s, ',');
    if f.len() != 3 {
        Err(Error::Usage)
    } else {
        match address_spec(f[0]) {
            None => Err(Error::AddressParsing),
            Some(o) => match requests_spec(f[1]) {
                Err(e) => Err(e),
                Ok(c) => match interval_spec(f[2]) {
                    Err(e) => Err(e),
                    Ok(i) => Ok((o, c, i)),
                },
            },
        }
    }
}

/// The argument string that denotes the given fields.
pub open spec fn render_spec(o: Seq<u8>, c: u16, i: u16) -> Seq<char> {
    dotted_spec(o) + seq![','] + decimal_spec(c as nat) + seq![','] + decimal_spec(i as nat)
}

impl RequestsToSend {
    pub open spec fn wf(&self) -> bool {
        1 <= self.0 <= 10
    }

    /// Reads a request count: a decimal number from one to ten.
    pub fn try_from(text: &str) -> (r: Result<RequestsToSend, Error>)
        ensures
            r is Ok <==> (parse_u16_spec(text@) matches Some(x) && 1 <= x <= 10),
            match requests_spec(text@) {
                Ok(x) => r == Ok::<RequestsToSend, Error>(RequestsToSend(x)),
                Err(e) => r == Err::<RequestsToSend, Error>(e),
            },
    {
        match parse_u16(text) {
            None => Err(Error::NumberParsing),
            Some(x) => {
                if x > 10 {
                    Err(Error::TooManyRequests)
                } else if x == 0 {
                    Err(Error::NoRequests)
                } else {
                    Ok(RequestsToSend(x))
                }
            },
        }
    }
}

impl TransmissionInterval {
    pub open spec fn wf(&self) -> bool {
        1 <= self.0 <= 1000
    }

    /// Reads an interval: a decimal number of milliseconds from one to a thousand.
    pub fn try_from(text: &str) -> (r: Result<TransmissionInterval, Error>)
        ensures
            r is Ok <==> (parse_u16_spec(text@) matches Some(x) && 1 <= x <= 1000),
            match interval_spec(text@) {
                Ok(x) => r == Ok::<TransmissionInterval, Error>(TransmissionInterval(x)),
                Err(e) => r == Err::<TransmissionInterval, Error>(e),
            },
    {
        match parse_u16(text) {
            None => Err(Error::NumberParsing),
            Some(x) => {
                if x > 1000 {
                    Err(Error::IntervalTooLong)
                } else if x == 0 {
                    Err(Error::ZeroInterval)
                } else {
                    Ok(TransmissionInterval(x))
                }
            },
        }
    }
}

impl Arg {
    pub open spec fn wf(&self) -> bool {
        self.requests.wf() && self.interval.wf()
    }

    /// Gathers already validated fields.
    pub fn from(fields: (Ipv4Address, RequestsToSend, TransmissionInterval)) -> (r: Arg)
        ensures
            r.destination == fields.0,
            r.requests == fields.1,
            r.interval == fields.2,
    {
        let (destination, requests, interval) = fields;
        Arg { destination, requests, interval }
    }

    /// The argument string `address,count,interval` that denotes this value.
    pub fn render(&self) -> (r: String)
        ensures
            r@ == render_spec(self.destination.octets@, self.requests.0, self.interval.0),
    {
        proof {
            reveal_strlit(",");
        }
        let mut out = self.destination.dotted();
        out.append(",");
        push_decimal(&mut out, self.requests.0 as u64);
        out.append(",");
        push_decimal(&mut out, self.interval.0 as u64);
        assert(out@ =~= render_spec(self.destination.octets@, self.requests.0, self.interval.0));
        out
    }
}

/// Reads `address,count,interval`.
pub fn parse_arg(arg: &str) -> (r: Result<Arg, Error>)
    ensures
        match arg_spec(arg@) {
            Ok((o, c, i)) => r matches Ok(a) && a.destination.octets@ == o && a.requests
                == RequestsToSend(c) && a.interval == TransmissionInterval(i),
            Err(e) => r == Err::<Arg, Error>(e),
        },
        r matches Ok(a) ==> a.wf(),
{
    let fields = split_fields(arg, ',');
    if fields.len() != 3 {
        return Err(Error::Usage);
    }
    let destination = match Ipv4Address::parse(fields[0]) {
        Some(a) => a,
        None => return Err(Error::AddressParsing),
    };
    let requests = match RequestsToSend::try_from(fields[1]) {
        Ok(r) => r,
        Err(e) => return Err(e),
    };
    let interval = match TransmissionInterval::try_from(fields[2]) {
        Ok(i) => i,
        Err(e) => return Err(e),
    };
    Ok(Arg::from((destination, requests, interval)))
}

/// An argument string with fewer than three comma-separated fields is a
/// usage error, whatever the fields hold.
pub proof fn lemma_few_fields_is_usage_error(s: Seq<char>)
    requires
        split_spec(s, ',').len() < 3,
    ensures
        arg_spec(s) == Err::<(Seq<u8>, u16, u16), Error>(Error::Usage),
{
}

proof fn lemma_concat_excludes(x: Seq<char>, y: Seq<char>, c: char)
    requires
        !x.contains(c),
        !y.contains(c),
    ensures
        !(x + y).contains(c),
{
    if (x + y).contains(c) {
        let j = choose|j: int| 0 <= j < (x + y).len() && (x + y)[j] == c;
        if j < x.len() {
            assert(x[j] == c);
        } else {
            assert(y[j - x.len()] == c);
        }
    }
}

proof fn lemma_decimal_reads_back(n: u16)
    ensures
        parse_u16_spec(decimal_spec(n as nat)) == Some(n),
        !decimal_spec(n as nat).contains(','),
{
    lemma_decimal_digits(n as nat);
    lemma_digits_exclude(decimal_spec(n as nat), ',');
}

/// Writing a valid argument out and reading it back gives the same fields.
pub proof fn lemma_arg_round_trip(o: Seq<u8>, c: u16, i: u16)
    requires
        o.len() == 4,
        1 <= c <= 10,
        1 <= i <= 1000,
    ensures
        arg_spec(render_spec(o, c, i)) == Ok::<(Seq<u8>, u16, u16), Error>((o, c, i)),
{
    let a = decimal_spec(o[0] as nat);
    let b = decimal_spec(o[1] as nat);
    let cc = decimal_spec(o[2] as nat);
    let d = decimal_spec(o[3] as nat);
    lemma_decimal_reads_back(o[0] as u16);
    lemma_decimal_reads_back(o[1] as u16);
    lemma_decimal_reads_back(o[2] as u16);
    lemma_decimal_reads_back(o[3] as u16);
    assert(!seq!['.'].contains(',')) by {
        assert(seq!['.'][0] == '.');
    }
    lemma_concat_excludes(a, seq!['.'], ',');
    lemma_concat_excludes(a + seq!['.'], b, ',');
    lemma_concat_excludes(a + seq!['.'] + b, seq!['.'], ',');
    lemma_concat_excludes(a + seq!['.'] + b + seq!['.'], cc, ',');
    lemma_concat_excludes(a + seq!['.'] + b + seq!['.'] + cc, seq!['.'], ',');
    lemma_concat_excludes(a + seq!['.'] + b + seq!['.'] + cc + seq!['.'], d, ',');
    let dotted = dotted_spec(o);
    let cs = decimal_spec(c as nat);
    let is = decimal_spec(i as nat);
    lemma_decimal_reads_back(c);
    lemma_decimal_reads_back(i);
    lemma_split_single(dotted, ',');
    lemma_split_single(cs, ',');
    lemma_split_single(is, ',');
    lemma_split_join(dotted, cs, ',');
    lemma_split_join(dotted + seq![','] + cs, is, ',');
    assert(split_spec(render_spec(o, c, i), ',') =~= seq![dotted, cs, is]);
    lemma_address_round_trip(o);
}

} // verus!
