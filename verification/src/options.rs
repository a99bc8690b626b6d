//! The settings of a ping run, checked.

use vstd::prelude::*;

verus! {

/// Settings of a ping run.
pub struct PingOptions {
    /// Host to ping.
    pub host: String,
    /// Port to ping.
    pub port: u16,
    /// Number of probes to send.
    pub num_pings: u32,
    /// Time allowed to each connection attempt, in seconds (never 0).
    pub timeout_secs: u64,
    /// Time between two probes, in milliseconds.
    pub interval_ms: u64,
}

/// Settings that a run refuses.
#[derive(Clone, Copy, Debug, PartialEq, Eq, Structural)]
pub enum OptionsError {
    /// The timeout was 0 seconds.
    ZeroTimeout,
}

impl OptionsError {
    /// The text reported for the error.
    pub fn message(&self) -> (text: String)
        ensures
            text@ == "Timeout must be greater than 0 seconds"@,
    {
        match self {
            OptionsError::ZeroTimeout => String::from_str("Timeout must be greater than 0 seconds"),
        }
    }
}

impl PingOptions {
    /// Checks the settings of a run: refused exactly when the timeout is 0.
    pub fn new(host: String, port: u16, num_pings: u32, timeout_secs: u64, interval_ms: u64) -> (r:
        Result<PingOptions, OptionsError>)
        ensures
            (r is Err) <==> timeout_secs == 0,
            r is Err ==> r == Err::<PingOptions, OptionsError>(OptionsError::ZeroTimeout),
            r matches Ok(o) ==> o.host@ == host@ && o.port == port && o.num_pings == num_pings
                && o.timeout_secs == timeout_secs && o.interval_ms == interval_ms,
    {
        if timeout_secs == 0 {
            return Err(OptionsError::ZeroTimeout);
        }
        Ok(PingOptions { host, port, num_pings, timeout_secs, interval_ms })
    }
}

} // verus!
