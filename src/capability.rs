//! Pure parts of the capabilities that scripts call: the base URL reported
//! by `get_with`, and the external cookie-capture tool's command line and
//! verdict.
use vstd::prelude::*;

verus! {

/// Why a capability call failed. Both fail the invocation alike.
#[derive(Debug, Clone, PartialEq, Eq)]
pub enum CapabilityError {
    /// Transport failure or a body that could not be decoded.
    NetworkError(String),
    /// The cookie-capture tool exited unsuccessfully; no cookie is trusted.
    ExternalToolFailure,
}

impl CapabilityError {
    /// A human-readable description of the failure.
    pub fn message(&self) -> (r: String)
        ensures
            match self {
                CapabilityError::NetworkError(m) => r@ == "network error: "@ + m@,
                CapabilityError::ExternalToolFailure => r@ == "cowv2 exit with no cookie"@,
            },
    {
        match self {
            CapabilityError::NetworkError(m) => String::from_str("network error: ").concat(m.as_str()),
            CapabilityError::ExternalToolFailure => String::from_str("cowv2 exit with no cookie"),
        }
    }
}

/// The base URL of the host a request finally reached: `scheme://host/`.
pub fn base_url(scheme: &str, host: &str) -> (r: String)
    ensures
        r@ == scheme@ + "://"@ + host@ + "/"@,
{
    String::from_str(scheme).concat("://").concat(host).concat("/")
}

/// The arguments of the cookie-capture tool: `-u <url> -r <pattern> -t <title>`.
pub fn cookie_tool_args(url: &str, pattern: &str, title: &str) -> (r: Vec<String>)
    ensures
        r@.len() == 6,
        r@[0]@ == "-u"@,
        r@[1]@ == url@,
        r@[2]@ == "-r"@,
        r@[3]@ == pattern@,
        r@[4]@ == "-t"@,
        r@[5]@ == title@,
{
    let mut r: Vec<String> = Vec::new();
    r.push(String::from_str("-u"));
    r.push(url.to_owned());
    r.push(String::from_str("-r"));
    r.push(pattern.to_owned());
    r.push(String::from_str("-t"));
    r.push(title.to_owned());
    r
}

/// The verdict on a finished cookie-capture run: its standard output when it
/// exited successfully, a failure carrying no cookie data otherwise.
pub fn cookie_tool_result(success: bool, stdout: String) -> (r: Result<String, CapabilityError>)
    ensures
        success ==> r == Ok::<String, CapabilityError>(stdout),
        !success ==> r == Err::<String, CapabilityError>(CapabilityError::ExternalToolFailure),
{
    if success {
        Ok(stdout)
    } else {
        Err(CapabilityError::ExternalToolFailure)
    }
}

} // verus!
