//! The command line: where the publisher is to be found.

use vstd::prelude::*;
use vstd::string::{is_ascii_spec_bytes, StringSliceAdditionalSpecFns};

verus! {

/// Name of the program.
pub const NAME: &'static str = "ictmon";

/// Version of the program.
pub const VERSION: &'static str = "v0.1.0";

/// Host of the publisher where the command line names none.
pub const ADDRESS: &'static str = "localhost";

/// Topic that the monitor subscribes to.
pub const CHANNEL_TX: &'static str = "tx";

/// Port of the publisher where the command line names none.
pub const PORT: u16 = 5560;

/// What is said when the command line has the wrong number of arguments.
pub const USAGE: &'static str =
    "Wrong number of arguments provided. Usage: ./ictmon <IP> <ZMQ-Port>";

/// A decimal digit.
pub open spec fn is_digit(c: char) -> bool {
    '0' <= c <= '9'
}

/// Every character is a decimal digit.
pub open spec fn all_digits(s: Seq<char>) -> bool {
    forall|i: int| 0 <= i < s.len() ==> is_digit(#[trigger] s[i])
}

/// The number a digit stands for.
pub open spec fn digit_value(c: char) -> nat {
    if is_digit(c) {
        (c as u32 - '0' as u32) as nat
    } else {
        0
    }
}

/// The number that a sequence of digits writes in base ten.
pub open spec fn decimal_value(s: Seq<char>) -> nat
    decreases s.len(),
{
    if s.len() == 0 {
        0
    } else {
        decimal_value(s.drop_last()) * 10 + digit_value(s.last())
    }
}

/// What is left of `s` without the `+` that may stand in front.
pub open spec fn unsigned_part(s: Seq<char>) -> Seq<char> {
    if s.len() > 0 && s[0] == '+' {
        s.drop_first()
    } else {
        s
    }
}

/// The port that `s` names: an optional `+`, then one or more decimal digits
/// whose value fits in sixteen bits.  Anything else names none.
pub open spec fn port_of(s: Seq<char>) -> Option<u16> {
    let digits = unsigned_part(s);
    if digits.len() > 0 && all_digits(digits) && decimal_value(digits) <= u16::MAX {
        Some(decimal_value(digits) as u16)
    } else {
        None
    }
}

proof fn lemma_decimal_prefix(s: Seq<char>, k: int)
    requires
        0 <= k <= s.len(),
    ensures
        decimal_value(s.take(k)) <= decimal_value(s),
    decreases s.len() - k,
{
    if k < s.len() {
        lemma_decimal_prefix(s, k + 1);
        assert(s.take(k + 1).drop_last() =~= s.take(k));
    } else {
        assert(s.take(k) =~= s);
    }
}

proof fn lemma_not_ascii_names_no_port(s: Seq<char>)
    requires
        !vstd::utf8::is_ascii_chars(s),
    ensures
        port_of(s) is None,
{
    let i = choose|i: int| 0 <= i < s.len() && !('\0' <= #[trigger] s[i] <= '\u{7f}');
    if s[0] == '+' {
        assert(!is_digit(s.drop_first()[i - 1]));
    }
}

/// Reads a port number.
pub fn parse_port(text: &str) -> (port: Option<u16>)
    ensures
        port == port_of(text@),
{
    if !text.is_ascii() {
        proof {
            lemma_not_ascii_names_no_port(text@);
        }
        return None;
    }
    proof {
        is_ascii_spec_bytes(text);
    }
    let bytes: &[u8] = text.as_bytes();
    let n: usize = bytes.len();
    let start: usize = if n > 0 && bytes[0] == 43u8 {
        1
    } else {
        0
    };
    let ghost digits = unsigned_part(text@);
    if start == n {
        return None;
    }
    let mut value: u32 = 0;
    let mut i: usize = start;
    while i < n
        invariant
            text.is_ascii(),
            n == text@.len(),
            bytes@ == text.spec_bytes(),
            text.spec_bytes() == Seq::new(text@.len(), |k: int| text@[k] as u8),
            start <= i <= n,
            digits == unsigned_part(text@),
            digits == text@.skip(start as int),
            all_digits(digits.take(i - start)),
            value == decimal_value(digits.take(i - start)),
            value <= u16::MAX,
        decreases n - i,
    {
        let b: u8 = bytes[i];
        proof {
            assert(digits.take(i + 1 - start).drop_last() =~= digits.take(i - start));
        }
        if b < 48u8 || b > 57u8 {
            assert(!is_digit(digits[i - start]));
            return None;
        }
        let next: u32 = value * 10 + (b - 48u8) as u32;
        if next > 65535u32 {
            proof {
                lemma_decimal_prefix(digits, i + 1 - start);
            }
            return None;
        }
        value = next;
        i = i + 1;
    }
    proof {
        assert(digits.take(n - start) =~= digits);
    }
    Some(value as u16)
}

/// The mathematical content of `Arguments`.
pub struct ArgumentsView {
    pub address: Seq<char>,
    pub port: u16,
}

/// Where the publisher is to be found.
#[derive(Debug, PartialEq, Eq)]
pub struct Arguments {
    address: String,
    port: u16,
}

impl View for Arguments {
    type V = ArgumentsView;

    closed spec fn view(&self) -> ArgumentsView {
        ArgumentsView { address: self.address@, port: self.port }
    }
}

/// What a command line of these arguments, the program's name first, says.
pub open spec fn arguments_of(args: Seq<Seq<char>>) -> Result<ArgumentsView, Seq<char>> {
    if args.len() == 1 {
        Ok(ArgumentsView { address: ADDRESS@, port: PORT })
    } else if args.len() == 3 {
        Ok(ArgumentsView { address: args[1], port: port_of(args[2]).unwrap() })
    } else {
        Err(USAGE@)
    }
}

/// The command line gives a port that can be read, where it gives one.
pub open spec fn port_is_readable(args: Seq<Seq<char>>) -> bool {
    args.len() == 3 ==> port_of(args[2]) is Some
}

impl Arguments {
    /// Reads the command line, the program's name first: alone it stands for
    /// the default publisher, followed by a host and a port for that one.
    pub fn new(args: Vec<String>) -> (result: Result<Self, String>)
        requires
            port_is_readable(args.deep_view()),
        ensures
            match arguments_of(args.deep_view()) {
                Ok(expected) => result matches Ok(arguments) && arguments@ == expected,
                Err(message) => result matches Err(said) && said@ == message,
            },
    {
        if args.len() == 1 {
            Ok(Arguments { address: ADDRESS.to_owned(), port: PORT })
        } else if args.len() == 3 {
            let port: Option<u16> = parse_port(args[2].as_str());
            Ok(Arguments { address: args[1].clone(), port: port.unwrap() })
        } else {
            Err(USAGE.to_owned())
        }
    }

    /// Host of the publisher.
    pub fn address(&self) -> (address: &str)
        ensures
            address@ == self@.address,
    {
        self.address.as_str()
    }

    /// Port of the publisher.
    pub fn port(&self) -> (port: u16)
        ensures
            port == self@.port,
    {
        self.port
    }
}

} // verus!
