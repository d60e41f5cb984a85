//! What the timeout headers say, as a server reads them.

use vstd::prelude::*;
use crate::protocol::Protocol;
use crate::text;
use crate::timeout;

verus! {

/// A number that was written in decimal is read as the same number, and is made
/// of digits without a needless zero in front.
pub proof fn decimal_round_trip(n: nat)
    ensures
        text::decimal(n).len() > 0,
        text::all_digits(text::decimal(n)),
        text::decimal_value(text::decimal(n)) == n,
        n > 0 ==> text::decimal(n)[0] != '0',
        n <= u32::MAX ==> text::parsed_u32(text::decimal(n)) == Some(n as u32),
    decreases n,
{
    let s = text::decimal(n);
    if n >= 10 {
        decimal_round_trip(n / 10);
        assert(s.drop_last() =~= text::decimal(n / 10));
    } else {
        assert(s.drop_last() =~= Seq::empty());
        reveal_with_fuel(text::decimal_value, 2);
    }
    assert('0' <= s[0] <= '9');
}

/// The nanoseconds in a unit of a gRPC timeout, if the character is a unit:
/// seconds, milliseconds, microseconds or nanoseconds.
pub open spec fn nanos_in(unit: char) -> Option<nat> {
    if unit == 'S' {
        Some(1_000_000_000)
    } else if unit == 'm' {
        Some(1_000_000)
    } else if unit == 'u' {
        Some(1_000)
    } else if unit == 'n' {
        Some(1)
    } else {
        None
    }
}

/// A Connect server reads the timeout in whole milliseconds, cut off, or as ten
/// nines when it is longer than that.
pub proof fn connect_server_reads_the_timeout(nanos: nat)
    ensures
        ({
            let t = timeout::timeout_text(nanos, Protocol::Connect);
            &&& text::all_digits(t)
            &&& 1 <= t.len() <= 10
            &&& text::decimal_value(t) == if nanos / 1_000_000 <= 9_999_999_999 {
                nanos / 1_000_000
            } else {
                9_999_999_999
            }
        }),
{
    timeout::connect_timeout_is_faithful(nanos);
    decimal_round_trip(timeout::connect_timeout_millis(nanos));
}

/// Whether a timeout can be written in a unit without a loss: a whole number of
/// units in at most eight digits.
pub open spec fn is_exact(nanos: nat, unit: nat) -> bool {
    nanos % unit == 0 && nanos / unit <= 99_999_999
}

/// A gRPC or gRPC-Web server reads at most eight digits and a unit. It gets the
/// timeout itself, in the largest unit that can express it; where none can, the
/// timeout cut to whole units of the smallest unit that has room for it; and the
/// longest timeout there is where nothing has room.
pub proof fn grpc_server_reads_the_timeout(nanos: nat, protocol: Protocol)
    requires
        protocol != Protocol::Connect,
    ensures
        ({
            let t = timeout::timeout_text(nanos, protocol);
            let digits = t.drop_last();
            let unit = nanos_in(t.last())->Some_0;
            let count = text::decimal_value(digits);
            let exact = is_exact(nanos, 1_000_000_000) || is_exact(nanos, 1_000_000) || is_exact(
                nanos,
                1_000,
            ) || is_exact(nanos, 1);
            &&& 2 <= t.len() <= 9
            &&& text::all_digits(digits)
            &&& nanos_in(t.last()) is Some
            &&& exact ==> count * unit == nanos
            &&& exact && nanos > 0 && unit < 1_000_000_000 ==> !is_exact(nanos, 1_000_000_000)
            &&& exact && nanos > 0 && unit < 1_000_000 ==> !is_exact(nanos, 1_000_000)
            &&& exact && nanos > 0 && unit < 1_000 ==> !is_exact(nanos, 1_000)
            &&& !exact && nanos / 1_000_000_000 <= 99_999_999 ==> {
                &&& count == nanos / unit
                &&& unit > 1 ==> nanos > 99_999_999
                &&& unit > 1_000 ==> nanos / 1_000 > 99_999_999
                &&& unit > 1_000_000 ==> nanos / 1_000_000 > 99_999_999
            }
            &&& nanos / 1_000_000_000 > 99_999_999 ==> count == 99_999_999 && t.last() == 'S'
        }),
{
    timeout::grpc_timeout_is_faithful(nanos);
    timeout::grpc_web_timeout_is_grpc_timeout(nanos);
    let g = timeout::grpc_timeout(nanos);
    let t = timeout::timeout_text(nanos, protocol);
    assert(t.drop_last() =~= text::decimal(g.count));
    decimal_round_trip(g.count);
    assert(nanos / 1 == nanos);
    assert(nanos % 1 == 0);
    if nanos == 0 {
        assert(g.count == 0);
    }
}

} // verus!
