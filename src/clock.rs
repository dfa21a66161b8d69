//! Helpers for the monotonic clock backend: OS status codes and the
//! conversion of performance-counter ticks into microseconds.
use vstd::prelude::*;
use vstd::arithmetic::div_mod::{
    lemma_div_pos_is_pos, lemma_fundamental_div_mod, lemma_hoist_over_denominator,
    lemma_mod_pos_bound, lemma_multiply_divide_lt,
};

verus! {

/// `std::io::Error`, carried unopened as the error that [`cvt`] returns.
#[verifier::external_type_specification]
#[verifier::external_body]
pub struct ExIoError(std::io::Error);

/// A value that an OS call returns, where zero reports failure.
pub trait IsZero {
    spec fn is_zero_spec(&self) -> bool;

    fn is_zero(&self) -> (r: bool)
        ensures
            r == self.is_zero_spec(),
    ;
}

impl IsZero for i8 {
    open spec fn is_zero_spec(&self) -> bool {
        *self == 0
    }

    fn is_zero(&self) -> (r: bool) {
        *self == 0
    }
}

impl IsZero for i16 {
    open spec fn is_zero_spec(&self) -> bool {
        *self == 0
    }

    fn is_zero(&self) -> (r: bool) {
        *self == 0
    }
}

impl IsZero for i32 {
    open spec fn is_zero_spec(&self) -> bool {
        *self == 0
    }

    fn is_zero(&self) -> (r: bool) {
        *self == 0
    }
}

impl IsZero for i64 {
    open spec fn is_zero_spec(&self) -> bool {
        *self == 0
    }

    fn is_zero(&self) -> (r: bool) {
        *self == 0
    }
}

impl IsZero for isize {
    open spec fn is_zero_spec(&self) -> bool {
        *self == 0
    }

    fn is_zero(&self) -> (r: bool) {
        *self == 0
    }
}

impl IsZero for u8 {
    open spec fn is_zero_spec(&self) -> bool {
        *self == 0
    }

    fn is_zero(&self) -> (r: bool) {
        *self == 0
    }
}

impl IsZero for u16 {
    open spec fn is_zero_spec(&self) -> bool {
        *self == 0
    }

    fn is_zero(&self) -> (r: bool) {
        *self == 0
    }
}

impl IsZero for u32 {
    open spec fn is_zero_spec(&self) -> bool {
        *self == 0
    }

    fn is_zero(&self) -> (r: bool) {
        *self == 0
    }
}

impl IsZero for u64 {
    open spec fn is_zero_spec(&self) -> bool {
        *self == 0
    }

    fn is_zero(&self) -> (r: bool) {
        *self == 0
    }
}

impl IsZero for usize {
    open spec fn is_zero_spec(&self) -> bool {
        *self == 0
    }

    fn is_zero(&self) -> (r: bool) {
        *self == 0
    }
}

/// Relies on `std::io::Error::last_os_error`: the error the OS last reported
/// on the calling thread.
#[verifier::external_body]
fn last_os_error() -> std::io::Error {
    std::io::Error::last_os_error()
}

/// Passes on a nonzero OS return value and turns zero into the thread's last
/// OS error.
pub fn cvt<I: IsZero>(i: I) -> (r: Result<I, std::io::Error>)
    ensures
        r is Err <==> i.is_zero_spec(),
        r is Ok ==> r->Ok_0 == i,
{
    if i.is_zero() {
        Err(last_os_error())
    } else {
        Ok(i)
    }
}

pub const MICROS_PER_SECOND: i64 = 1_000_000;

/// Whole microseconds in `ticks` ticks at `frequency` ticks per second.
pub open spec fn micros_of(ticks: int, frequency: int) -> int {
    ticks * 1_000_000 / frequency
}

/// Microseconds elapsed after `ticks` ticks of a counter that runs at
/// `frequency` ticks per second, rounded down; `None` when that does not fit
/// in an `i64`.
pub fn ticks_to_micros(ticks: i64, frequency: i64) -> (r: Option<i64>)
    requires
        ticks >= 0,
        frequency > 0,
    ensures
        r is Some <==> micros_of(ticks as int, frequency as int) <= i64::MAX,
        r is Some ==> r->0 == micros_of(ticks as int, frequency as int),
{
    let whole = ticks / frequency;
    let part = ticks % frequency;
    proof {
        lemma_micros_split(ticks as int, frequency as int);
    }
    match whole.checked_mul(MICROS_PER_SECOND) {
        None => None,
        Some(w) => {
            let p = ((part as i128) * (MICROS_PER_SECOND as i128) / (frequency as i128)) as i64;
            w.checked_add(p)
        },
    }
}

proof fn lemma_micros_split(t: int, f: int)
    requires
        t >= 0,
        f > 0,
    ensures
        t * 1_000_000 / f == (t / f) * 1_000_000 + (t % f) * 1_000_000 / f,
        0 <= (t % f) * 1_000_000 / f < 1_000_000,
{
    let q = t / f;
    let r = t % f;
    lemma_fundamental_div_mod(t, f);
    lemma_mod_pos_bound(t, f);
    assert(t * 1_000_000 == r * 1_000_000 + (q * 1_000_000) * f) by (nonlinear_arith)
        requires
            t == f * q + r,
    ;
    lemma_hoist_over_denominator(r * 1_000_000, q * 1_000_000, f as nat);
    lemma_div_pos_is_pos(r * 1_000_000, f);
    assert(r * 1_000_000 < f * 1_000_000) by (nonlinear_arith)
        requires
            r < f,
    ;
    lemma_multiply_divide_lt(r * 1_000_000, f, 1_000_000);
}

} // verus!
