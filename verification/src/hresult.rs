//! COM status codes.

use vstd::prelude::*;

verus! {

pub const S_OK: u32 = 0;

pub const S_FALSE: u32 = 1;

pub const E_NOTIMPL: u32 = 0x8000_4001;

pub const E_NOINTERFACE: u32 = 0x8000_4002;

pub const E_POINTER: u32 = 0x8000_4003;

pub const E_FAIL: u32 = 0x8000_4005;

pub const E_UNEXPECTED: u32 = 0x8000_FFFF;

pub const CLASS_E_NOAGGREGATION: u32 = 0x8004_0110;

pub const CLASS_E_CLASSNOTAVAILABLE: u32 = 0x8004_0111;

/// A status reports success when its top bit is clear.
pub open spec fn is_success(hr: u32) -> bool {
    hr < 0x8000_0000
}

pub fn succeeded(hr: u32) -> (r: bool)
    ensures
        r == is_success(hr),
{
    hr < 0x8000_0000
}

/// A status is a success or a failure by its top bit alone; every code that is named
/// here after an error is a failure, and the two others are successes.
pub proof fn errors_have_the_top_bit_set(hr: u32)
    ensures
        is_success(hr) <==> hr & 0x8000_0000 == 0,
        is_success(S_OK),
        is_success(S_FALSE),
        !is_success(E_NOTIMPL),
        !is_success(E_NOINTERFACE),
        !is_success(E_POINTER),
        !is_success(E_FAIL),
        !is_success(E_UNEXPECTED),
        !is_success(CLASS_E_NOAGGREGATION),
        !is_success(CLASS_E_CLASSNOTAVAILABLE),
{
    assert((hr & 0x8000_0000 == 0) <==> hr < 0x8000_0000) by (bit_vector);
}

} // verus!
