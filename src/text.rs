//! Human-readable text for the decoder's types: errors, headers, samples
//! and packets, with numbers in decimal.
use vstd::prelude::*;
use vstd::string::StringExecFns;

use crate::decoder::{sample_count, Header, Packet, ParseError, Payload, INDICATOR};

verus! {

/// The decimal digit character of `d`, which is below ten.
pub open spec fn digit(d: nat) -> char {
    seq!['0', '1', '2', '3', '4', '5', '6', '7', '8', '9'][d as int]
}

/// The decimal digits of `n`, most significant first, without leading zeros.
pub open spec fn decimal(n: nat) -> Seq<char>
    decreases n,
{
    if n < 10 {
        seq![digit(n)]
    } else {
        decimal(n / 10) + seq![digit(n % 10)]
    }
}

/// The text of one sample.
pub open spec fn payload_text(p: Payload) -> Seq<char> {
    "Payload { distance: "@ + decimal(p.distance as nat) + ", intensity: "@ + decimal(
        p.intensity as nat,
    ) + " }"@
}

/// The texts of the samples, separated by ", ".
pub open spec fn payloads_text(s: Seq<Payload>) -> Seq<char>
    decreases s.len(),
{
    if s.len() == 0 {
        Seq::empty()
    } else if s.len() == 1 {
        payload_text(s[0])
    } else {
        payloads_text(s.drop_last()) + ", "@ + payload_text(s.last())
    }
}

/// The one-character text of the digit `d`.
fn digit_str(d: u64) -> (s: &'static str)
    requires
        d < 10,
    ensures
        s@ == seq![digit(d as nat)],
{
    if d == 0 {
        proof {
            reveal_strlit("0");
        }
        "0"
    } else if d == 1 {
        proof {
            reveal_strlit("1");
        }
        "1"
    } else if d == 2 {
        proof {
            reveal_strlit("2");
        }
        "2"
    } else if d == 3 {
        proof {
            reveal_strlit("3");
        }
        "3"
    } else if d == 4 {
        proof {
            reveal_strlit("4");
        }
        "4"
    } else if d == 5 {
        proof {
            reveal_strlit("5");
        }
        "5"
    } else if d == 6 {
        proof {
            reveal_strlit("6");
        }
        "6"
    } else if d == 7 {
        proof {
            reveal_strlit("7");
        }
        "7"
    } else if d == 8 {
        proof {
            reveal_strlit("8");
        }
        "8"
    } else {
        proof {
            reveal_strlit("9");
        }
        "9"
    }
}

/// Appends the decimal digits of `n` to `out`.
pub fn push_decimal(out: &mut String, n: u64)
    ensures
        final(out)@ == old(out)@ + decimal(n as nat),
    decreases n,
{
    if n >= 10 {
        push_decimal(out, n / 10);
    }
    out.append(digit_str(n % 10));
    assert(final(out)@ =~= old(out)@ + decimal(n as nat));
}

/// Appends the text of one sample to `out`.
fn push_payload(out: &mut String, p: &Payload)
    ensures
        final(out)@ == old(out)@ + payload_text(*p),
{
    out.append("Payload { distance: ");
    push_decimal(out, p.distance as u64);
    out.append(", intensity: ");
    push_decimal(out, p.intensity as u64);
    out.append(" }");
    assert(final(out)@ =~= old(out)@ + payload_text(*p));
}

impl ParseError {
    /// A short description of the error.
    pub fn to_string(&self) -> (s: String)
        ensures
            match self {
                ParseError::InvalidHeader => s@ == "invalid header"@,
                ParseError::InvalidPredata => s@ == "invalid predata"@,
                ParseError::InvalidPayloadLength => s@ == "invalid payload length"@,
                ParseError::InvalidPayload => s@ == "invalid payload"@,
                ParseError::InvalidPostdata => s@ == "invalid postdata"@,
                ParseError::DescribedLengthMismatch => s@ == "described length mismatch"@,
                ParseError::Io(e) => vstd::string::to_string_from_display_ensures(e, s),
            },
    {
        match self {
            ParseError::InvalidHeader => String::from_str("invalid header"),
            ParseError::InvalidPredata => String::from_str("invalid predata"),
            ParseError::InvalidPayloadLength => String::from_str("invalid payload length"),
            ParseError::InvalidPayload => String::from_str("invalid payload"),
            ParseError::InvalidPostdata => String::from_str("invalid postdata"),
            ParseError::DescribedLengthMismatch => String::from_str("described length mismatch"),
            ParseError::Io(e) => e.to_string(),
        }
    }
}

impl Header {
    /// The indicator, version and sample count, in decimal.
    pub fn to_string(&self) -> (s: String)
        ensures
            s@ == "Header { indicator: "@ + decimal(INDICATOR as nat) + ", version: "@ + decimal(
                (self.ver_len / 32) as nat,
            ) + ", length (payload count): "@ + decimal(sample_count(self.ver_len)) + " }"@,
    {
        let mut s = String::from_str("Header { indicator: ");
        push_decimal(&mut s, INDICATOR as u64);
        s.append(", version: ");
        push_decimal(&mut s, self.version() as u64);
        s.append(", length (payload count): ");
        push_decimal(&mut s, self.payload_count() as u64);
        s.append(" }");
        s
    }
}

impl Payload {
    /// The distance and intensity, in decimal.
    pub fn to_string(&self) -> (s: String)
        ensures
            s@ == payload_text(*self),
    {
        let mut s = String::new();
        push_payload(&mut s, self);
        assert(s@ =~= payload_text(*self));
        s
    }
}

impl Packet {
    /// Every field of the packet, in decimal, with its samples in order.
    pub fn to_string(&self) -> (s: String)
        ensures
            s@ == "Packet timestamped (ms): "@ + decimal(self.timestamp as nat) + " { version: "@
                + decimal((self.header.ver_len / 32) as nat) + ", degrees per second: "@ + decimal(
                self.speed as nat,
            ) + ", starting angle: "@ + decimal(self.start_angle as nat) + ", ending angle: "@
                + decimal(self.end_angle as nat) + ", data points: ["@ + payloads_text(self.data@)
                + "], crc: "@ + decimal(self.crc as nat) + " }"@,
    {
        let mut s = String::from_str("Packet timestamped (ms): ");
        push_decimal(&mut s, self.timestamp as u64);
        s.append(" { version: ");
        push_decimal(&mut s, self.header.version() as u64);
        s.append(", degrees per second: ");
        push_decimal(&mut s, self.speed as u64);
        s.append(", starting angle: ");
        push_decimal(&mut s, self.start_angle as u64);
        s.append(", ending angle: ");
        push_decimal(&mut s, self.end_angle as u64);
        s.append(", data points: [");
        let ghost head = s@;
        let mut i: usize = 0;
        while i < self.data.len()
            invariant
                i <= self.data@.len(),
                s@ == head + payloads_text(self.data@.take(i as int)),
            decreases self.data@.len() - i,
        {
            let ghost before = s@;
            assert(self.data@.take(i + 1).drop_last() =~= self.data@.take(i as int));
            if i > 0 {
                s.append(", ");
            }
            push_payload(&mut s, &self.data[i]);
            if i == 0 {
                assert(payloads_text(self.data@.take(1)) == payload_text(self.data@[0]));
                assert(s@ =~= head + payloads_text(self.data@.take(1)));
            } else {
                assert(s@ =~= head + payloads_text(self.data@.take(i + 1)));
            }
            i = i + 1;
        }
        assert(self.data@.take(self.data@.len() as int) =~= self.data@);
        s.append("], crc: ");
        push_decimal(&mut s, self.crc as u64);
        s.append(" }");
        s
    }
}

} // verus!
