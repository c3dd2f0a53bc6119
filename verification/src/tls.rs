//! TLS policy decisions: the one-shot insecure switch.

use crate::text::{chars_of, contains, has};
use vstd::prelude::*;
use vstd::string::StringExecFns;

verus! {

/// The switch that turns certificate verification off.
///
/// It is set once, before it is used: the first value stored sticks, and
/// from the first use on nothing is stored any more. An attempt to store
/// after the first use is remembered and reported at the next use.
#[derive(Debug, Clone, Copy, PartialEq, Eq, Structural)]
pub struct InsecureTlsFlag {
    /// The value stored, if any.
    pub value: Option<bool>,
    /// Whether the switch was used.
    pub used: bool,
    /// Whether a value came after the first use.
    pub set_after_use: bool,
}

/// The message for a switch that was set after its first use.
pub open spec fn late_set_message() -> Seq<char> {
    "Insecure TLS flag was set after first use"@
}

impl InsecureTlsFlag {
    /// A switch that nobody has set or used yet.
    pub fn new() -> (flag: InsecureTlsFlag)
        ensures
            flag == (InsecureTlsFlag { value: None, used: false, set_after_use: false }),
    {
        InsecureTlsFlag { value: None, used: false, set_after_use: false }
    }
}

/// What storing `enabled` makes of the switch: the first value before any
/// use is kept, a later one is dropped, and one that comes after the
/// first use is dropped and remembered.
pub open spec fn flag_after_set(flag: InsecureTlsFlag, enabled: bool) -> InsecureTlsFlag {
    if flag.used {
        InsecureTlsFlag { set_after_use: true, ..flag }
    } else if flag.value is None {
        InsecureTlsFlag { value: Some(enabled), ..flag }
    } else {
        flag
    }
}

/// Stores `enabled` in the switch if nothing was stored and the switch
/// was not used before.
pub fn set_dangerous_insecure_tls(flag: &mut InsecureTlsFlag, enabled: bool)
    ensures
        *final(flag) == flag_after_set(*old(flag), enabled),
{
    if flag.used {
        flag.set_after_use = true;
    } else if flag.value.is_none() {
        flag.value = Some(enabled);
    }
}

/// Whether certificate verification is switched off. Unset counts as off.
pub fn is_insecure_tls(flag: &InsecureTlsFlag) -> (insecure: bool)
    ensures
        insecure == (flag.value == Some(true)),
{
    match flag.value {
        Some(v) => v,
        None => false,
    }
}

/// Uses the switch: from now on it cannot be set any more.
///
/// Returns whether verification is off, or the configuration error of a
/// switch that was set after an earlier use.
pub fn use_insecure_tls(flag: &mut InsecureTlsFlag) -> (insecure: Result<bool, String>)
    ensures
        *final(flag) == (InsecureTlsFlag { used: true, ..*old(flag) }),
        old(flag).set_after_use ==> (insecure matches Err(message) && message@
            == late_set_message()),
        !old(flag).set_after_use ==> insecure == Ok::<bool, String>(old(flag).value == Some(true)),
{
    flag.used = true;
    if flag.set_after_use {
        Err(String::from_str("Insecure TLS flag was set after first use"))
    } else {
        Ok(is_insecure_tls(flag))
    }
}

/// Where the trust of a TLS client comes from.
#[derive(Debug, Clone, Copy, PartialEq, Eq, Structural)]
pub enum TlsTrust {
    /// The root certificates of the operating system.
    SystemRoots,
    /// Every certificate is accepted. A warning is due at every
    /// handshake.
    AcceptAny,
}

/// The message for a system without root certificates.
pub open spec fn no_roots_message() -> Seq<char> {
    "No system root certificates found. TLS connections will fail. Ensure CA certificates are installed (e.g., ca-certificates package on Linux)."@
}

/// Decides where the trust of the TLS client comes from.
///
/// With the insecure switch on, every certificate is accepted. Otherwise
/// the system's roots are used, and their absence is an error: without
/// them every real server would be rejected.
pub fn tls_trust(insecure: bool, root_count: usize) -> (trust: Result<TlsTrust, String>)
    ensures
        insecure ==> trust == Ok::<TlsTrust, String>(TlsTrust::AcceptAny),
        !insecure && root_count > 0 ==> trust == Ok::<TlsTrust, String>(TlsTrust::SystemRoots),
        !insecure && root_count == 0 ==> (trust matches Err(message) && message@
            == no_roots_message()),
{
    if insecure {
        Ok(TlsTrust::AcceptAny)
    } else if root_count == 0 {
        Err(
            String::from_str(
                "No system root certificates found. TLS connections will fail. Ensure CA certificates are installed (e.g., ca-certificates package on Linux).",
            ),
        )
    } else {
        Ok(TlsTrust::SystemRoots)
    }
}

/// The class of a failed handshake, for telemetry, by what the error's
/// text holds: certificate trouble first, then a timeout, then a refused
/// or reset connection.
pub open spec fn tls_error_class(detail: Seq<char>) -> Seq<char> {
    if contains(detail, "ertificate"@) {
        "certificate_error"@
    } else if contains(detail, "timed out"@) || contains(detail, "timeout"@) {
        "timeout"@
    } else if contains(detail, "refused"@) || contains(detail, "reset"@) {
        "connection_refused"@
    } else {
        "other"@
    }
}

/// Classifies a failed handshake by its error text.
pub fn classify_tls_error(detail: &str) -> (class: &'static str)
    ensures
        class@ == tls_error_class(detail@),
{
    let d = chars_of(detail);
    if has(d.as_slice(), chars_of("ertificate").as_slice()) {
        "certificate_error"
    } else if has(d.as_slice(), chars_of("timed out").as_slice()) || has(
        d.as_slice(),
        chars_of("timeout").as_slice(),
    ) {
        "timeout"
    } else if has(d.as_slice(), chars_of("refused").as_slice()) || has(
        d.as_slice(),
        chars_of("reset").as_slice(),
    ) {
        "connection_refused"
    } else {
        "other"
    }
}

/// The message for a failed handshake with `host`.
pub fn tls_failure_message(host: &str, detail: &str) -> (message: String)
    ensures
        message@ == "TLS handshake failed with "@ + host@ + " ("@ + tls_error_class(detail@)
            + "): "@ + detail@,
{
    let mut message = String::from_str("TLS handshake failed with ");
    message.append(host);
    message.append(" (");
    message.append(classify_tls_error(detail));
    message.append("): ");
    message.append(detail);
    message
}

/// The message for a name that is no server name.
pub fn invalid_server_name_message(error: &str) -> (message: String)
    ensures
        message@ == "Invalid server name: "@ + error@,
{
    let mut message = String::from_str("Invalid server name: ");
    message.append(error);
    message
}

/// The message for a root certificate that the trust store refuses.
pub fn add_cert_failure_message(error: &str) -> (message: String)
    ensures
        message@ == "Failed to add cert: "@ + error@,
{
    let mut message = String::from_str("Failed to add cert: ");
    message.append(error);
    message
}

} // verus!
