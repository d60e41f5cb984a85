//! The text of a timeout in the protocols' timeout headers.

use std::time::Duration;
use vstd::prelude::*;
use crate::protocol::Protocol;
use crate::text;

verus! {

/// The nanoseconds in a duration.
pub uninterp spec fn duration_nanos(d: Duration) -> u128;

/// `Duration::as_nanos` gives the total number of nanoseconds.
pub assume_specification[ Duration::as_nanos ](d: &Duration) -> (r: u128)
    ensures
        r == duration_nanos(*d),
;

/// The most milliseconds the Connect protocol can express: ten digits.
pub const MAX_CONNECT_MILLIS: u128 = 9_999_999_999;

/// The largest count gRPC can express: eight digits.
pub const MAX_GRPC_COUNT: u128 = 99_999_999;

/// A count of a gRPC timeout unit.
pub struct GrpcTimeout {
    pub count: nat,
    pub unit: char,
}

/// The nanoseconds in a gRPC timeout unit.
pub open spec fn unit_nanos(unit: char) -> nat {
    if unit == 'S' {
        1_000_000_000
    } else if unit == 'm' {
        1_000_000
    } else if unit == 'u' {
        1_000
    } else {
        1
    }
}

/// Whether a duration is a whole number of units that fits in eight digits.
pub open spec fn exact_in(nanos: nat, unit: char) -> bool {
    nanos % unit_nanos(unit) == 0 && fits_in(nanos, unit)
}

/// Whether a duration, cut to whole units, fits in eight digits.
pub open spec fn fits_in(nanos: nat, unit: char) -> bool {
    nanos / unit_nanos(unit) <= MAX_GRPC_COUNT
}

/// A duration cut to whole units.
pub open spec fn in_unit(nanos: nat, unit: char) -> GrpcTimeout {
    GrpcTimeout { count: nanos / unit_nanos(unit), unit }
}

/// How gRPC writes a duration: in the largest unit that loses nothing and fits
/// in eight digits; if there is none, cut to the smallest unit that fits; if
/// nothing fits, as the largest number of seconds there is. Zero is written in
/// nanoseconds.
pub open spec fn grpc_timeout(nanos: nat) -> GrpcTimeout {
    if nanos == 0 {
        in_unit(nanos, 'n')
    } else if exact_in(nanos, 'S') {
        in_unit(nanos, 'S')
    } else if exact_in(nanos, 'm') {
        in_unit(nanos, 'm')
    } else if exact_in(nanos, 'u') {
        in_unit(nanos, 'u')
    } else if fits_in(nanos, 'n') {
        in_unit(nanos, 'n')
    } else if fits_in(nanos, 'u') {
        in_unit(nanos, 'u')
    } else if fits_in(nanos, 'm') {
        in_unit(nanos, 'm')
    } else if fits_in(nanos, 'S') {
        in_unit(nanos, 'S')
    } else {
        GrpcTimeout { count: MAX_GRPC_COUNT as nat, unit: 'S' }
    }
}

/// How the Connect protocol writes a duration: in whole milliseconds, at most
/// ten digits.
pub open spec fn connect_timeout_millis(nanos: nat) -> nat {
    if nanos / 1_000_000 <= MAX_CONNECT_MILLIS {
        nanos / 1_000_000
    } else {
        MAX_CONNECT_MILLIS as nat
    }
}

/// The text of a timeout header.
pub open spec fn timeout_text(nanos: nat, protocol: Protocol) -> Seq<char> {
    match protocol {
        Protocol::Connect => text::decimal(connect_timeout_millis(nanos)),
        _ => text::decimal(grpc_timeout(nanos).count).push(grpc_timeout(nanos).unit),
    }
}

/// A count followed by its unit.
fn with_unit(count: u128, unit: char) -> (r: String)
    ensures
        r@ == text::decimal(count as nat).push(unit),
{
    let mut s = text::decimal_string(count);
    s.push(unit);
    s
}

/// Formats a timeout for the protocol's timeout header.
pub fn format_timeout(timeout: Duration, protocol: Protocol) -> (r: String)
    ensures
        r@ == timeout_text(duration_nanos(timeout) as nat, protocol),
{
    format_timeout_nanos(timeout.as_nanos(), protocol)
}

/// Formats a number of nanoseconds for the protocol's timeout header.
pub fn format_timeout_nanos(nanos: u128, protocol: Protocol) -> (r: String)
    ensures
        r@ == timeout_text(nanos as nat, protocol),
{
    let secs: u128 = nanos / 1_000_000_000;
    let millis: u128 = nanos / 1_000_000;
    let micros: u128 = nanos / 1_000;
    match protocol {
        Protocol::Connect => {
            if millis <= MAX_CONNECT_MILLIS {
                text::decimal_string(millis)
            } else {
                text::decimal_string(MAX_CONNECT_MILLIS)
            }
        },
        Protocol::Grpc | Protocol::GrpcWeb => {
            if nanos == 0 {
                with_unit(0, 'n')
            } else if nanos % 1_000_000_000 == 0 && secs <= MAX_GRPC_COUNT {
                with_unit(secs, 'S')
            } else if nanos % 1_000_000 == 0 && millis <= MAX_GRPC_COUNT {
                with_unit(millis, 'm')
            } else if nanos % 1_000 == 0 && micros <= MAX_GRPC_COUNT {
                with_unit(micros, 'u')
            } else if nanos <= MAX_GRPC_COUNT {
                with_unit(nanos, 'n')
            } else if micros <= MAX_GRPC_COUNT {
                with_unit(micros, 'u')
            } else if millis <= MAX_GRPC_COUNT {
                with_unit(millis, 'm')
            } else if secs <= MAX_GRPC_COUNT {
                with_unit(secs, 'S')
            } else {
                with_unit(MAX_GRPC_COUNT, 'S')
            }
        },
    }
}

/// A number below a power of ten has at most that many digits.
proof fn decimal_length(n: nat, digits: nat)
    requires
        digits >= 1,
        n < vstd::arithmetic::power::pow(10, digits),
    ensures
        1 <= text::decimal(n).len() <= digits,
    decreases digits,
{
    vstd::arithmetic::power::lemma_pow1(10);
    if digits > 1 && n >= 10 {
        let p = vstd::arithmetic::power::pow(10, (digits - 1) as nat);
        assert(vstd::arithmetic::power::pow(10, digits) == 10 * p) by {
            reveal(vstd::arithmetic::power::pow);
        }
        assert(n / 10 < p);
        decimal_length(n / 10, (digits - 1) as nat);
    }
}

/// The powers of ten that bound a timeout's digits.
proof fn powers_of_ten()
    ensures
        vstd::arithmetic::power::pow(10, 8) == 100_000_000,
        vstd::arithmetic::power::pow(10, 10) == 10_000_000_000,
{
    reveal_with_fuel(vstd::arithmetic::power::pow, 11);
}

/// A Connect timeout has at most ten digits, and what it says is at most the
/// timeout, less than a millisecond below it where ten digits suffice.
pub proof fn connect_timeout_is_faithful(nanos: nat)
    ensures
        timeout_text(nanos, Protocol::Connect) == text::decimal(connect_timeout_millis(nanos)),
        1 <= timeout_text(nanos, Protocol::Connect).len() <= 10,
        connect_timeout_millis(nanos) * 1_000_000 <= nanos,
        nanos / 1_000_000 <= MAX_CONNECT_MILLIS ==> nanos < (connect_timeout_millis(nanos) + 1)
            * 1_000_000,
{
    powers_of_ten();
    decimal_length(connect_timeout_millis(nanos), 10);
}

/// A gRPC timeout has at most eight digits and a unit; what it says is at most
/// the timeout, and exactly the timeout where some unit can express it; and a
/// timeout that is not zero is never written as zero.
pub proof fn grpc_timeout_is_faithful(nanos: nat)
    ensures
        ({
            let t = grpc_timeout(nanos);
            &&& 2 <= timeout_text(nanos, Protocol::Grpc).len() <= 9
            &&& t.unit == 'S' || t.unit == 'm' || t.unit == 'u' || t.unit == 'n'
            &&& t.count * unit_nanos(t.unit) <= nanos
            &&& (exact_in(nanos, 'S') || exact_in(nanos, 'm') || exact_in(nanos, 'u') || exact_in(
                nanos,
                'n',
            )) ==> t.count * unit_nanos(t.unit) == nanos
            &&& nanos > 0 ==> t.count > 0
        }),
{
    powers_of_ten();
    decimal_length(grpc_timeout(nanos).count, 8);
    let t = grpc_timeout(nanos);
    assert(t.count * unit_nanos(t.unit) <= nanos) by {
        if t.unit == 'S' {
            assert(t.count * 1_000_000_000 <= nanos);
        } else if t.unit == 'm' {
            assert(t.count * 1_000_000 <= nanos);
        } else if t.unit == 'u' {
            assert(t.count * 1_000 <= nanos);
        } else {
            assert(t.count * 1 <= nanos);
        }
    }
}

/// gRPC and gRPC-Web write timeouts alike.
pub proof fn grpc_web_timeout_is_grpc_timeout(nanos: nat)
    ensures
        timeout_text(nanos, Protocol::GrpcWeb) == timeout_text(nanos, Protocol::Grpc),
{
}

} // verus!
