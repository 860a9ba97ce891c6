//! Connection settings supplied by an external configuration loader. The
//! model layer carries them only; it never reaches the network itself.

use vstd::prelude::*;

verus! {

/// How to reach the vendor automation API. Filled in by an external loader;
/// no field is interpreted by the model layer.
#[derive(Debug)]
pub struct Configuration {
    pub hostname: String,
    pub port: i32,
    pub api_token: String,
}

} // verus!
