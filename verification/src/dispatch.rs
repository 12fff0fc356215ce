//! Choosing a three-dimensional dispatch grid for the kernel.
//!
//! A GPU dispatch runs `dispatches.i * workgroups.i` invocations along
//! each dimension, and every band needs one invocation.  The search
//! grows the three dispatch counts in round-robin order — a balanced
//! grid keeps every dimension within device limits — and stops at the
//! first shape whose total covers the requested invocations.

use vstd::prelude::*;

verus! {

/// How many times dimension `dim` has been grown after `k` round-robin
/// steps.
pub open spec fn dispatch_count(k: int, dim: int) -> int {
    k / 3 + if k % 3 > dim {
        1int
    } else {
        0int
    }
}

/// Whether the grid after `k` steps covers the requested invocations.
pub open spec fn dispatch_reaches(k: int, workgroups: (u32, u32, u32), total: u32) -> bool {
    (dispatch_count(k, 0) * workgroups.0) * (dispatch_count(k, 1) * workgroups.1) * (
    dispatch_count(k, 2) * workgroups.2) >= total
}

/// Find a 3D kernel dispatch that balances all dimensions: the first
/// round-robin grid that covers `total_invocations`.  Returns the
/// dispatch counts and the invocations per dimension.
pub fn find_dispatch_dimensions(total_invocations: u32, workgroups: (u32, u32, u32)) -> (r: Result<
    ((u32, u32, u32), (u32, u32, u32)),
    crate::Error,
>)
    requires
        1 <= workgroups.0 <= 1024,
        1 <= workgroups.1 <= 1024,
        1 <= workgroups.2 <= 1024,
    ensures
        r is Ok <==> exists|k: int|
            1 <= k <= 3_000_000 && #[trigger] dispatch_reaches(k, workgroups, total_invocations),
        r matches Ok(pair) ==> exists|k: int|
            {
                &&& 1 <= k <= 3_000_000
                &&& #[trigger] dispatch_reaches(k, workgroups, total_invocations)
                &&& forall|j: int|
                    1 <= j < k ==> !(#[trigger] dispatch_reaches(
                        j,
                        workgroups,
                        total_invocations,
                    ))
                &&& pair.0.0 == dispatch_count(k, 0)
                &&& pair.0.1 == dispatch_count(k, 1)
                &&& pair.0.2 == dispatch_count(k, 2)
                &&& pair.1.0 == dispatch_count(k, 0) * workgroups.0
                &&& pair.1.1 == dispatch_count(k, 1) * workgroups.1
                &&& pair.1.2 == dispatch_count(k, 2) * workgroups.2
            },
        r matches Err(e) ==> e == crate::Error::DispatchUnavailable,
{
    let mut d0: u32 = 0;
    let mut d1: u32 = 0;
    let mut d2: u32 = 0;
    let mut k: u32 = 0;
    while k < 3_000_000
        invariant
            k <= 3_000_000,
            d0 == dispatch_count(k as int, 0),
            d1 == dispatch_count(k as int, 1),
            d2 == dispatch_count(k as int, 2),
            d0 <= 1_000_000,
            d1 <= 1_000_000,
            d2 <= 1_000_000,
            1 <= workgroups.0 <= 1024,
            1 <= workgroups.1 <= 1024,
            1 <= workgroups.2 <= 1024,
            forall|j: int|
                1 <= j <= k ==> !(#[trigger] dispatch_reaches(j, workgroups, total_invocations)),
        decreases 3_000_000 - k,
    {
        let ghost k0 = k as int;
        let dimension = k % 3;
        proof {
            vstd::arithmetic::div_mod::lemma_fundamental_div_mod(k0, 3);
            vstd::arithmetic::div_mod::lemma_fundamental_div_mod_converse(
                k0 + 1,
                3,
                if k0 % 3 == 2 {
                    k0 / 3 + 1
                } else {
                    k0 / 3
                },
                if k0 % 3 == 2 {
                    0int
                } else {
                    k0 % 3 + 1
                },
            );
        }
        if dimension == 0 {
            d0 = d0 + 1;
        } else if dimension == 1 {
            d1 = d1 + 1;
        } else {
            d2 = d2 + 1;
        }
        k = k + 1;
        proof {
            assert(d0 * workgroups.0 <= 1_000_001 * 1024) by (nonlinear_arith)
                requires
                    d0 <= 1_000_001u32,
                    workgroups.0 <= 1024,
            ;
            assert(d1 * workgroups.1 <= 1_000_001 * 1024) by (nonlinear_arith)
                requires
                    d1 <= 1_000_001u32,
                    workgroups.1 <= 1024,
            ;
            assert(d2 * workgroups.2 <= 1_000_001 * 1024) by (nonlinear_arith)
                requires
                    d2 <= 1_000_001u32,
                    workgroups.2 <= 1024,
            ;
        }
        proof {
            assert(d0 == dispatch_count(k as int, 0));
            assert(d1 == dispatch_count(k as int, 1));
            assert(d2 == dispatch_count(k as int, 2));
        }
        let invocations = (d0 * workgroups.0, d1 * workgroups.1, d2 * workgroups.2);
        proof {
            assert((invocations.0 as u128) * (invocations.1 as u128) <= 0xFFFF_FFFFu128
                * 0xFFFF_FFFFu128) by (nonlinear_arith)
                requires
                    invocations.0 <= 0xFFFF_FFFFu32,
                    invocations.1 <= 0xFFFF_FFFFu32,
            ;
        }
        let pair01 = (invocations.0 as u128) * (invocations.1 as u128);
        proof {
            assert(pair01 * (invocations.2 as u128) <= (0xFFFF_FFFFu128 * 0xFFFF_FFFFu128)
                * 0xFFFF_FFFFu128) by (nonlinear_arith)
                requires
                    pair01 <= 0xFFFF_FFFFu128 * 0xFFFF_FFFFu128,
                    invocations.2 <= 0xFFFF_FFFFu32,
            ;
            assert(pair01 * (invocations.2 as u128) == ((invocations.0 as int) * (
            invocations.1 as int)) * (invocations.2 as int)) by (nonlinear_arith)
                requires
                    pair01 == (invocations.0 as int) * (invocations.1 as int),
            ;
        }
        let total_invocations_generated = pair01 * (invocations.2 as u128);
        if total_invocations_generated >= total_invocations as u128 {
            proof {
                assert(dispatch_reaches(k as int, workgroups, total_invocations));
            }
            return Ok(((d0, d1, d2), invocations));
        }
        proof {
            assert(!dispatch_reaches(k as int, workgroups, total_invocations));
        }
    }
    Err(crate::Error::DispatchUnavailable)
}

} // verus!
