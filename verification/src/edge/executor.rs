//! Executors: what a plan becomes on a router. The dry-run executor changes
//! nothing; the legacy executor turns each step into one `ip` or `nft`
//! command line and restores an interface's MTU on rollback.
use vstd::prelude::*;
use crate::edge::capabilities::{
    CapView, CapabilityGraph, NetworkCapability, NftAction, NftChain, NftFamily, NftTable, TransportProtocol,
};
use crate::json_text::string_views;
use crate::text::{decimal, owned, push_decimal};

verus! {

/// A snapshot to roll back to: what it names, and the state to restore.
#[derive(Debug)]
pub struct Snapshot {
    pub metadata: String,
    pub raw_state: String,
}

impl Clone for Snapshot {
    fn clone(&self) -> (r: Self)
        ensures
            r.metadata@ == self.metadata@,
            r.raw_state@ == self.raw_state@,
    {
        Snapshot { metadata: self.metadata.clone(), raw_state: self.raw_state.clone() }
    }
}

/// What applies a plan to a router.
pub trait Executor {
    fn capture_snapshot(&self) -> Result<Snapshot, std::io::Error>;

    fn apply(&self, plan: &CapabilityGraph) -> Result<(), std::io::Error>;

    fn rollback(&self, snapshot: &Snapshot) -> Result<(), std::io::Error>;
}

/// The executor that changes nothing.
pub struct DryRunExecutor;

impl Executor for DryRunExecutor {
    fn capture_snapshot(&self) -> (r: Result<Snapshot, std::io::Error>)
        ensures
            r matches Ok(s) && s.metadata@ == "DryRun Default"@ && s.raw_state@ == "mock_state"@,
    {
        Ok(Snapshot { metadata: owned("DryRun Default"), raw_state: owned("mock_state") })
    }

    fn apply(&self, plan: &CapabilityGraph) -> (r: Result<(), std::io::Error>)
        ensures
            r is Ok,
    {
        Ok(())
    }

    fn rollback(&self, snapshot: &Snapshot) -> (r: Result<(), std::io::Error>)
        ensures
            r is Ok,
    {
        Ok(())
    }
}

/// The program and arguments that carry out one step.
pub open spec fn step_program(c: CapView) -> Seq<char> {
    match c {
        CapView::AddNftRule { .. } => "nft"@,
        CapView::CommitConfig => "true"@,
        _ => "ip"@,
    }
}

pub open spec fn family_word(f: NftFamily) -> Seq<char> {
    match f {
        NftFamily::Inet => "inet"@,
    }
}

pub open spec fn table_word(t: NftTable) -> Seq<char> {
    match t {
        NftTable::Filter => "filter"@,
    }
}

pub open spec fn chain_word(c: NftChain) -> Seq<char> {
    match c {
        NftChain::Forward => "forward"@,
    }
}

pub open spec fn protocol_word(p: TransportProtocol) -> Seq<char> {
    match p {
        TransportProtocol::Tcp => "tcp"@,
        TransportProtocol::Udp => "udp"@,
    }
}

pub open spec fn action_word(a: NftAction) -> Seq<char> {
    match a {
        NftAction::Accept => "accept"@,
        NftAction::Drop => "drop"@,
        NftAction::Reject => "reject"@,
    }
}

pub open spec fn step_args(c: CapView) -> Seq<Seq<char>> {
    match c {
        CapView::AddRoute { target, via } => seq!["route"@, "add"@, target, "via"@, via],
        CapView::AddNftRule { family, table, chain, protocol, dport, rule_action } => seq![
            "add"@,
            "rule"@,
            family_word(family),
            table_word(table),
            chain_word(chain),
            protocol_word(protocol),
            "dport"@,
            decimal(dport as nat),
            action_word(rule_action),
        ],
        CapView::SetMtu { interface, mtu } => seq!["link"@, "set"@, "dev"@, interface, "mtu"@, decimal(mtu as nat)],
        CapView::FlushRouteCache => seq!["route"@, "flush"@, "cache"@],
        CapView::CommitConfig => seq![],
    }
}

fn number_text(n: u64) -> (t: String)
    ensures
        t@ == decimal(n as nat),
{
    let mut t = String::new();
    push_decimal(&mut t, n);
    assert(t@ =~= decimal(n as nat));
    t
}

/// What applying a plan does next.
pub enum ApplyAction {
    /// Run this command for the next step.
    Run { program: String, args: Vec<String> },
    /// The step at this index failed; the plan stops there.
    Stop { failed_step: usize },
    /// Every step ran.
    Applied,
}

pub enum ApplyActionView {
    Run(Seq<char>, Seq<Seq<char>>),
    Stop(int),
    Applied,
}

pub open spec fn apply_action_view(a: ApplyAction) -> ApplyActionView {
    match a {
        ApplyAction::Run { program, args } => ApplyActionView::Run(program@, string_views(args@)),
        ApplyAction::Stop { failed_step } => ApplyActionView::Stop(failed_step as int),
        ApplyAction::Applied => ApplyActionView::Applied,
    }
}

/// Steps run in order; the first that fails stops the plan.
pub open spec fn apply_step_spec(plan: Seq<CapView>, done: int, last_succeeded: bool) -> ApplyActionView {
    if done > 0 && !last_succeeded {
        ApplyActionView::Stop(done - 1)
    } else if done >= plan.len() {
        ApplyActionView::Applied
    } else {
        ApplyActionView::Run(step_program(plan[done]), step_args(plan[done]))
    }
}

/// The executor that runs `ip` and `nft` on the router itself.
pub struct FreeBSDExecutor;

impl FreeBSDExecutor {
    /// The command line that carries out `step`.
    pub fn step_command(step: &NetworkCapability) -> (r: (String, Vec<String>))
        ensures
            r.0@ == step_program(step@),
            string_views(r.1@) == step_args(step@),
    {
        let mut args: Vec<String> = Vec::new();
        let program = match step {
            NetworkCapability::AddRoute { target, via } => {
                args.push(owned("route"));
                args.push(owned("add"));
                args.push(target.clone());
                args.push(owned("via"));
                args.push(via.clone());
                "ip"
            },
            NetworkCapability::AddNftRule { family, table, chain, protocol, dport, rule_action } => {
                args.push(owned("add"));
                args.push(owned("rule"));
                args.push(owned(match family {
                    NftFamily::Inet => "inet",
                }));
                args.push(owned(match table {
                    NftTable::Filter => "filter",
                }));
                args.push(owned(match chain {
                    NftChain::Forward => "forward",
                }));
                args.push(owned(match protocol {
                    TransportProtocol::Tcp => "tcp",
                    TransportProtocol::Udp => "udp",
                }));
                args.push(owned("dport"));
                args.push(number_text(*dport as u64));
                args.push(owned(match rule_action {
                    NftAction::Accept => "accept",
                    NftAction::Drop => "drop",
                    NftAction::Reject => "reject",
                }));
                "nft"
            },
            NetworkCapability::SetMtu { interface, mtu } => {
                args.push(owned("link"));
                args.push(owned("set"));
                args.push(owned("dev"));
                args.push(interface.clone());
                args.push(owned("mtu"));
                args.push(number_text(*mtu as u64));
                "ip"
            },
            NetworkCapability::FlushRouteCache => {
                args.push(owned("route"));
                args.push(owned("flush"));
                args.push(owned("cache"));
                "ip"
            },
            NetworkCapability::CommitConfig => "true",
        };
        assert(string_views(args@) =~= step_args(step@));
        (owned(program), args)
    }

    /// The next move of applying `plan` once `done` steps have run, the last
    /// of them ending as `last_succeeded` says: a failed step stops the
    /// plan, otherwise the next step's command runs, and after the last step
    /// the plan is applied.
    pub fn apply_step(plan: &CapabilityGraph, done: usize, last_succeeded: bool) -> (a: ApplyAction)
        ensures
            apply_action_view(a) == apply_step_spec(plan@, done as int, last_succeeded),
    {
        if done > 0 && !last_succeeded {
            ApplyAction::Stop { failed_step: done - 1 }
        } else if done >= plan.network_caps.len() {
            ApplyAction::Applied
        } else {
            let (program, args) = FreeBSDExecutor::step_command(&plan.network_caps[done]);
            ApplyAction::Run { program, args }
        }
    }

    /// The snapshot of `pppoe-wan` from `ip -json link show` output: its MTU,
    /// or 1500 where the output gives none.
    pub fn snapshot_from_link_state(state: &str) -> (s: Snapshot)
        ensures
            s.metadata@ == "pppoe-wan"@,
            s.raw_state@ == decimal(
                match ip_link_first_mtu(state@) {
                    Some(m) => m,
                    None => 1500u64,
                } as nat,
            ),
    {
        let mtu = match first_link_mtu(state) {
            Some(m) => m,
            None => 1500,
        };
        Snapshot { metadata: owned("pppoe-wan"), raw_state: number_text(mtu) }
    }

    /// The command that restores the snapshot's MTU.
    pub fn rollback_command(snapshot: &Snapshot) -> (r: (String, Vec<String>))
        ensures
            r.0@ == "ip"@,
            string_views(r.1@) == seq!["link"@, "set"@, "dev"@, snapshot.metadata@, "mtu"@, snapshot.raw_state@],
    {
        let mut args: Vec<String> = Vec::new();
        args.push(owned("link"));
        args.push(owned("set"));
        args.push(owned("dev"));
        args.push(snapshot.metadata.clone());
        args.push(owned("mtu"));
        args.push(snapshot.raw_state.clone());
        assert(string_views(args@) =~= seq!["link"@, "set"@, "dev"@, snapshot.metadata@, "mtu"@, snapshot.raw_state@]);
        (owned("ip"), args)
    }
}

/// The `mtu` of the first link in `ip -json link show` output, as
/// `serde_json` reads it: the JSON value's `[0]["mtu"]` as an unsigned
/// number, where the text parses and holds one.
pub uninterp spec fn ip_link_first_mtu(state: Seq<char>) -> Option<u64>;

/// Parses the output with `serde_json::from_str` into a `Value` (an
/// unreadable text is the null value) and takes `[0]["mtu"].as_u64()`. The
/// contract claims only that the answer is the one named
/// `ip_link_first_mtu`.
#[verifier::external_body]
fn first_link_mtu(state: &str) -> (r: Option<u64>)
    ensures
        r == ip_link_first_mtu(state@),
{
    let parsed: serde_json::Value = serde_json::from_str(state).unwrap_or_default();
    parsed[0]["mtu"].as_u64()
}

} // verus!
