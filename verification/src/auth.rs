//! Caller identity for test harnesses.
//!
//! Real deployments obtain a caller identity from the token service; test
//! harnesses present a fixed token instead and stamp its user onto the
//! actions they broadcast.

use vstd::prelude::*;
use vstd::string::StringExecFns;

verus! {

/// Yields the static bearer token that test harnesses present in place of
/// the token service.
pub fn setup_auth() -> (token: String)
    ensures
        token@ == "test-user-token"@,
{
    String::from_str("test-user-token")
}

} // verus!
