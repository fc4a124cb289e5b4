//! Text building: decimal numbers and `host:port` addresses.

use vstd::prelude::*;
use vstd::string::StringExecFns;

verus! {

/// `String::push` appends the given character to the end of the string.
pub assume_specification[ std::string::String::push ](text: &mut String, ch: char)
    ensures
        final(text)@ == old(text)@.push(ch),
;

/// The character of a decimal digit.
pub open spec fn digit(d: int) -> char {
    seq!['0', '1', '2', '3', '4', '5', '6', '7', '8', '9'][d]
}

/// The decimal notation of a number, without leading zeros.
pub open spec fn decimal(n: nat) -> Seq<char>
    decreases n,
{
    if n < 10 {
        seq![digit(n as int)]
    } else {
        decimal(n / 10).push(digit((n % 10) as int))
    }
}

/// The decimal notation of a number that may be negative.
pub open spec fn signed_decimal(n: int) -> Seq<char> {
    if n < 0 {
        "-"@ + decimal((-n) as nat)
    } else {
        decimal(n as nat)
    }
}

/// Appends the decimal notation of `n`.
fn push_decimal(text: &mut String, n: u16)
    ensures
        final(text)@ == old(text)@ + decimal(n as nat),
    decreases n,
{
    if n >= 10 {
        push_decimal(text, n / 10);
    }
    let d: u16 = n % 10;
    let ch: char = match d {
        0 => '0',
        1 => '1',
        2 => '2',
        3 => '3',
        4 => '4',
        5 => '5',
        6 => '6',
        7 => '7',
        8 => '8',
        _ => '9',
    };
    text.push(ch);
    assert(text@ =~= old(text)@ + decimal(n as nat));
}

/// The decimal notation of `n`.
pub fn decimal_text(n: u16) -> (text: String)
    ensures
        text@ == decimal(n as nat),
{
    let mut text = String::new();
    push_decimal(&mut text, n);
    assert(Seq::<char>::empty() + decimal(n as nat) =~= decimal(n as nat));
    text
}

/// A port at a host, written `host:port`.
pub open spec fn address(host: Seq<char>, port: u16) -> Seq<char> {
    host + ":"@ + decimal(port as nat)
}

/// The address of a port at a host.
pub fn address_text(host: &str, port: u16) -> (text: String)
    ensures
        text@ == address(host@, port),
{
    let mut text = host.to_string();
    text.append(":");
    push_decimal(&mut text, port);
    text
}

/// Decimal notation is made of digits only, at least one.
proof fn lemma_decimal_digits(n: nat)
    ensures
        decimal(n).len() > 0,
        forall|i: int| 0 <= i < decimal(n).len() ==> '0' <= #[trigger] decimal(n)[i] <= '9',
    decreases n,
{
    if n >= 10 {
        lemma_decimal_digits(n / 10);
    }
}

/// Different numbers have different decimal notations.
pub proof fn law_decimals_told_apart(a: nat, b: nat)
    ensures
        decimal(a) == decimal(b) ==> a == b,
    decreases a,
{
    if decimal(a) == decimal(b) {
        lemma_decimal_digits(a / 10);
        lemma_decimal_digits(b / 10);
        assert(decimal(a).last() == digit((a % 10) as int));
        assert(decimal(b).last() == digit((b % 10) as int));
        if a >= 10 {
            assert(decimal(a).drop_last() =~= decimal(a / 10));
            assert(decimal(b).drop_last() =~= decimal(b / 10));
            law_decimals_told_apart(a / 10, b / 10);
        }
    }
}

/// Addresses are the same only if host and port are.
pub proof fn law_addresses_told_apart(host1: Seq<char>, port1: u16, host2: Seq<char>, port2: u16)
    ensures
        address(host1, port1) == address(host2, port2) ==> host1 == host2 && port1 == port2,
{
    let a = address(host1, port1);
    let b = address(host2, port2);
    let digits1 = decimal(port1 as nat);
    let digits2 = decimal(port2 as nat);
    reveal_strlit(":");
    if a == b {
        lemma_decimal_digits(port1 as nat);
        lemma_decimal_digits(port2 as nat);
        assert(a.len() == host1.len() + 1 + digits1.len());
        assert(b.len() == host2.len() + 1 + digits2.len());
        assert(a[host1.len() as int] == ':');
        assert(b[host2.len() as int] == ':');
        if host1.len() < host2.len() {
            assert(a[host2.len() as int] == digits1[host2.len() - host1.len() - 1]);
        }
        if host2.len() < host1.len() {
            assert(b[host1.len() as int] == digits2[host1.len() - host2.len() - 1]);
        }
        assert(a.take(host1.len() as int) =~= host1);
        assert(b.take(host2.len() as int) =~= host2);
        assert(a.skip(host1.len() as int + 1) =~= digits1);
        assert(b.skip(host2.len() as int + 1) =~= digits2);
        law_decimals_told_apart(port1 as nat, port2 as nat);
    }
}

/// The number that decimal digits write.
pub open spec fn digits_value(digits: Seq<char>) -> int
    decreases digits.len(),
{
    if digits.len() == 0 {
        0
    } else {
        digits_value(digits.drop_last()) * 10 + (digits.last() as int - '0' as int)
    }
}

/// The decimal notation of a number is made of digits that write the number,
/// without leading zeros.
pub proof fn law_decimal_writes_the_number(n: nat)
    ensures
        digits_value(decimal(n)) == n,
        decimal(n).len() > 0,
        forall|i: int| 0 <= i < decimal(n).len() ==> '0' <= #[trigger] decimal(n)[i] <= '9',
        n < 10 ==> decimal(n).len() == 1,
        n > 0 ==> decimal(n)[0] != '0',
    decreases n,
{
    lemma_decimal_digits(n);
    reveal_with_fuel(digits_value, 2);
    if n >= 10 {
        law_decimal_writes_the_number(n / 10);
        assert(decimal(n).drop_last() =~= decimal(n / 10));
        assert(decimal(n)[0] == decimal(n / 10)[0]);
    } else {
        assert(decimal(n).drop_last() =~= Seq::empty());
    }
}

/// A negative number is written with a minus sign, any other without a sign.
pub proof fn law_signed_decimal_writes_the_number(n: int)
    ensures
        n >= 0 ==> digits_value(signed_decimal(n)) == n,
        n < 0 ==> signed_decimal(n)[0] == '-' && digits_value(signed_decimal(n).skip(1)) == -n,
        n >= 0 ==> signed_decimal(n)[0] != '-',
{
    reveal_strlit("-");
    if n < 0 {
        law_decimal_writes_the_number((-n) as nat);
        assert(signed_decimal(n).skip(1) =~= decimal((-n) as nat));
    } else {
        law_decimal_writes_the_number(n as nat);
        assert('0' <= decimal(n as nat)[0]);
    }
}

/// An address is the host, a colon and the port.
pub proof fn law_address_is_host_and_port(host: Seq<char>, port: u16)
    ensures
        address(host, port).len() > host.len() + 1,
        address(host, port).take(host.len() as int) == host,
        address(host, port)[host.len() as int] == ':',
        digits_value(address(host, port).skip(host.len() as int + 1)) == port,
{
    reveal_strlit(":");
    law_decimal_writes_the_number(port as nat);
    assert(address(host, port).take(host.len() as int) =~= host);
    assert(address(host, port).skip(host.len() as int + 1) =~= decimal(port as nat));
}

} // verus!
