//! The compute side of one probing unit: the fixed endpoint and the exact
//! request body the provider expects. The network call itself lives with the
//! caller; it hands the raw response body to the classifier.

use vstd::prelude::*;
use vstd::string::StringExecFns;

verus! {

/// The request body for one address: a single-field JSON object whose value
/// is the raw address, deliberately unescaped to match the wire protocol.
pub open spec fn spec_request_body(address: Seq<char>) -> Seq<char> {
    "{\"Username\":\""@ + address + "\"}"@
}

/// Builds the probe request body for `address`, embedding it verbatim.
pub fn request_body(address: &str) -> (r: String)
    ensures
        r@ == spec_request_body(address@),
{
    let mut r = "{\"Username\":\"".to_owned();
    r.append(address);
    r.append("\"}");
    r
}

/// The fixed endpoint every probe posts to.
pub fn endpoint_url() -> (r: &'static str)
    ensures
        r@ == "https://login.microsoftonline.com/common/GetCredentialType"@,
{
    "https://login.microsoftonline.com/common/GetCredentialType"
}

} // verus!
