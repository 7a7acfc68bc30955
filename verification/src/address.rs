//! The address on which a service listens: every interface, and a port.

use vstd::prelude::*;
use vstd::string::StringExecFns;

verus! {

/// Every interface of the machine, up to the port.
pub const ANY_INTERFACE: &'static str = "0.0.0.0:";

/// The character of the decimal digit `d`.
pub open spec fn digit(d: nat) -> char {
    if d == 0 {
        '0'
    } else if d == 1 {
        '1'
    } else if d == 2 {
        '2'
    } else if d == 3 {
        '3'
    } else if d == 4 {
        '4'
    } else if d == 5 {
        '5'
    } else if d == 6 {
        '6'
    } else if d == 7 {
        '7'
    } else if d == 8 {
        '8'
    } else {
        '9'
    }
}

/// `n` in decimal, without leading zeros.
pub open spec fn decimal(n: nat) -> Seq<char>
    decreases n,
{
    if n < 10 {
        seq![digit(n)]
    } else {
        decimal(n / 10).push(digit(n % 10))
    }
}

/// The address of every interface at `port`.
pub open spec fn any_interface_at(port: u16) -> Seq<char> {
    ANY_INTERFACE@ + decimal(port as nat)
}

/// One decimal digit as text.
fn digit_text(d: u16) -> (text: &'static str)
    requires
        d < 10,
    ensures
        text@ == seq![digit(d as nat)],
{
    proof {
        reveal_strlit("0");
        reveal_strlit("1");
        reveal_strlit("2");
        reveal_strlit("3");
        reveal_strlit("4");
        reveal_strlit("5");
        reveal_strlit("6");
        reveal_strlit("7");
        reveal_strlit("8");
        reveal_strlit("9");
    }
    let text = match d {
        0 => "0",
        1 => "1",
        2 => "2",
        3 => "3",
        4 => "4",
        5 => "5",
        6 => "6",
        7 => "7",
        8 => "8",
        _ => "9",
    };
    assert(text@ =~= seq![digit(d as nat)]);
    text
}

/// Writes `n` in decimal.
pub fn decimal_text(n: u16) -> (text: String)
    ensures
        text@ == decimal(n as nat),
    decreases n,
{
    if n < 10 {
        digit_text(n).to_owned()
    } else {
        let text = decimal_text(n / 10).concat(digit_text(n % 10));
        assert(text@ =~= decimal(n as nat));
        text
    }
}

/// The address on which a service listens at `port`: every interface.
pub fn bind_address(port: u16) -> (address: String)
    ensures
        address@ == any_interface_at(port),
{
    let digits = decimal_text(port);
    String::from_str(ANY_INTERFACE).concat(digits.as_str())
}

} // verus!
