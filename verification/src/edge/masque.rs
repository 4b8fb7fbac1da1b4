//! The MASQUE tunnel client: its command line, built as separate arguments
//! (no shell reads them), and what its run means for the tunnel.
use vstd::prelude::*;
use crate::json_text::string_views;
use crate::text::{owned, text_with};

verus! {

/// The MASQUE client binary.
pub const MASQUE_CLIENT: &'static str = "/usr/bin/masque-client";

/// The client's arguments: the endpoint, the SNI that Encrypted Client
/// Hello carries, the pre-shared key, and the request to run as a daemon.
pub fn masque_arguments(endpoint: &str, sni: &str, psk: &str) -> (r: Vec<String>)
    ensures
        string_views(r@) == seq!["--endpoint"@, endpoint@, "--sni"@, sni@, "--psk"@, psk@, "--daemonize"@],
{
    let mut args: Vec<String> = Vec::new();
    args.push(owned("--endpoint"));
    args.push(owned(endpoint));
    args.push(owned("--sni"));
    args.push(owned(sni));
    args.push(owned("--psk"));
    args.push(owned(psk));
    args.push(owned("--daemonize"));
    assert(string_views(args@) =~= seq!["--endpoint"@, endpoint@, "--sni"@, sni@, "--psk"@, psk@, "--daemonize"@]);
    args
}

/// How a run of the client ended.
pub enum ClientRun {
    /// It ran and exited, successfully or not, writing `stderr`.
    Exited { success: bool, stderr: String },
    /// The binary is not installed.
    Missing,
    /// It could not be started, for the reason given.
    Unstartable(String),
}

/// What the run means: a successful exit establishes the tunnel; a failed
/// exit is an error carrying the client's error output; a missing binary is
/// taken as a simulated tunnel on development hosts; any other start
/// failure is passed on.
pub fn masque_verdict(run: &ClientRun) -> (r: Result<(), String>)
    ensures
        match run {
            ClientRun::Exited { success: true, .. } => r is Ok,
            ClientRun::Exited { success: false, stderr } => r matches Err(m) && m@
                == "MASQUE client failed to start: "@ + stderr@,
            ClientRun::Missing => r is Ok,
            ClientRun::Unstartable(e) => r matches Err(m) && m@ == e@,
        },
{
    match run {
        ClientRun::Exited { success, stderr } => if *success {
            Ok(())
        } else {
            Err(text_with("MASQUE client failed to start: ", stderr.as_str()))
        },
        ClientRun::Missing => Ok(()),
        ClientRun::Unstartable(e) => Err(e.clone()),
    }
}

} // verus!
