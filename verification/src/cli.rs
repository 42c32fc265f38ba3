//! What the command line decides before anything is done.
use vstd::prelude::*;

verus! {

/// The log level for a number of verbosity flags.
pub fn log_level(verbose: u8) -> (r: &'static str)
    ensures
        r@ == match verbose {
            0 => "warn"@,
            1 => "info"@,
            2 => "debug"@,
            _ => "trace"@,
        },
{
    match verbose {
        0 => "warn",
        1 => "info",
        2 => "debug",
        _ => "trace",
    }
}

/// The endpoint is not encrypted, and nothing allows that.
#[derive(Clone, Copy, Debug, PartialEq, Eq, Structural)]
pub struct HttpsRequired;

impl HttpsRequired {
    /// What is said of it.
    pub fn message(&self) -> (r: &'static str)
        ensures
            r@
                == "https is required; set NAVIGATOR_CLUSTER=https://... or use --allow-insecure-access"@,
    {
        "https is required; set NAVIGATOR_CLUSTER=https://... or use --allow-insecure-access"
    }
}

/// Whether an endpoint may be used. One that is encrypted always may. One that is
/// not may where no TLS settings were given; where some were, it takes the flag
/// that allows it all the same.
pub fn check_endpoint(https: bool, tls_settings: bool, allow_insecure_access: bool) -> (r: Result<
    (),
    HttpsRequired,
>)
    ensures
        r == if https || !tls_settings || allow_insecure_access {
            Ok::<(), HttpsRequired>(())
        } else {
            Err(HttpsRequired)
        },
{
    if !https && tls_settings && !allow_insecure_access {
        return Err(HttpsRequired);
    }
    Ok(())
}

} // verus!
