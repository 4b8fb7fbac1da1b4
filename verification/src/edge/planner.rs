//! Turns a profile into a capability plan, and a plan into the evidence of a
//! dry run.
use vstd::prelude::*;
use crate::digest::{sha256_hex, sha256_hex_spec};
use crate::edge::capabilities::{
    CapView, CapabilityGraph, NetworkCapability, NftAction, NftChain, NftFamily, NftTable, TransportProtocol, graph_json,
};
use crate::edge::profiles::{ProfileIntent, ProfileSchema, ProfileView};
use crate::ip::{canonical_ip, ip_spec, ip_text};
use crate::order::same_chars;
use crate::text::{chars_of, owned, text_with};

verus! {

/// An interface that a route may go through, or an IP address.
pub open spec fn valid_via(s: Seq<char>) -> bool {
    ||| s == "pppoe-wan"@
    ||| s == "wan"@
    ||| s == "wg0"@
    ||| s == "br-lan"@
    ||| ip_spec(s) is Some
}

fn is_word(val: &[char], word: &str) -> (r: bool)
    ensures
        r == (val@ == word@),
{
    let w = chars_of(word);
    same_chars(val, w.as_slice())
}

/// Whether `val` names an allowed interface or reads as an IP address.
pub fn is_valid_interface_or_ip(val: &str) -> (r: bool)
    ensures
        r == valid_via(val@),
{
    let cs = chars_of(val);
    let v = cs.as_slice();
    is_word(v, "pppoe-wan") || is_word(v, "wan") || is_word(v, "wg0") || is_word(v, "br-lan") || canonical_ip(
        val,
    ).is_some()
}

/// Prepends `p` to a successful result.
pub open spec fn prepend(p: Seq<CapView>, r: Result<Seq<CapView>, Seq<char>>) -> Result<Seq<CapView>, Seq<char>> {
    match r {
        Ok(rest) => Ok(p + rest),
        Err(e) => Err(e),
    }
}

/// One route per upstream, each to the address in its canonical text via the
/// gateway; the first address that does not parse, or a gateway that is no
/// interface or address, refuses the plan.
pub open spec fn dns_routes(ips: Seq<Seq<char>>, gw: Seq<char>) -> Result<Seq<CapView>, Seq<char>>
    decreases ips.len(),
{
    if ips.len() == 0 {
        Ok(seq![])
    } else {
        match ip_spec(ips[0]) {
            None => Err("Invalid IP address in DnsPrivacy profile: "@ + ips[0]),
            Some(a) => if !valid_via(gw) {
                Err("Invalid via interface/IP: "@ + gw)
            } else {
                prepend(seq![CapView::AddRoute { target: ip_text(a), via: gw }], dns_routes(ips.drop_first(), gw))
            },
        }
    }
}

/// Accept forwarded TCP to `port`.
pub open spec fn accept_tcp(port: u16) -> CapView {
    CapView::AddNftRule {
        family: NftFamily::Inet,
        table: NftTable::Filter,
        chain: NftChain::Forward,
        protocol: TransportProtocol::Tcp,
        dport: port,
        rule_action: NftAction::Accept,
    }
}

/// The plan for a profile, or why there is none.
pub open spec fn plan_spec(p: ProfileView, gw: Seq<char>) -> Result<Seq<CapView>, Seq<char>> {
    match p.intent {
        ProfileIntent::DnsPrivacy => match p.dns {
            Some(d) => match dns_routes(d.upstream_ips, gw) {
                Ok(routes) => Ok(routes.push(accept_tcp(853))),
                Err(e) => Err(e),
            },
            None => Err("DnsPrivacy intent requires 'dns' configuration"@),
        },
        ProfileIntent::EchPreserve => Ok(seq![accept_tcp(443)]),
        ProfileIntent::UserTunnel => Ok(seq![CapView::AddRoute { target: "0.0.0.0/0"@, via: "10.0.0.1"@ }]),
        ProfileIntent::SafeMtu => Ok(seq![CapView::SetMtu { interface: "pppoe-wan"@, mtu: 1492 }]),
        ProfileIntent::RecoverySafeMode => Ok(seq![CapView::FlushRouteCache]),
        ProfileIntent::ObliviousDns => Err("No capability plan for intent ObliviousDns"@),
        ProfileIntent::MasqueObfuscation => Err("No capability plan for intent MasqueObfuscation"@),
    }
}

pub open spec fn graph_result(r: Result<CapabilityGraph, String>) -> Result<Seq<CapView>, Seq<char>> {
    match r {
        Ok(g) => Ok(g@),
        Err(e) => Err(e@),
    }
}

fn accept_tcp_rule(port: u16) -> (c: NetworkCapability)
    ensures
        c@ == accept_tcp(port),
{
    NetworkCapability::AddNftRule {
        family: NftFamily::Inet,
        table: NftTable::Filter,
        chain: NftChain::Forward,
        protocol: TransportProtocol::Tcp,
        dport: port,
        rule_action: NftAction::Accept,
    }
}

/// The evidence that a plan was made and not applied.
#[derive(Clone, Debug)]
pub struct DryRunEvidence {
    pub execution_mode: String,
    pub mutation_performed: bool,
    pub profile_name: String,
    pub plan_steps: CapabilityGraph,
    pub plan_sha256: String,
    pub refusal_reason: String,
}

pub struct Planner;

impl Planner {
    /// The capability plan for `profile`, routing through `default_gateway`.
    pub fn plan(profile: &ProfileSchema, default_gateway: &str) -> (r: Result<CapabilityGraph, String>)
        ensures
            graph_result(r) == plan_spec(profile@, default_gateway@),
    {
        let mut graph = CapabilityGraph::new();
        match profile.intent {
            ProfileIntent::DnsPrivacy => {
                match &profile.dns {
                    Some(dns) => {
                        let ghost ips = dns@.upstream_ips;
                        let ghost gw = default_gateway@;
                        let mut i: usize = 0;
                        assert(ips.skip(0) =~= ips);
                        while i < dns.upstream_ips.len()
                            invariant
                                ips == dns@.upstream_ips,
                                gw == default_gateway@,
                                profile@.intent == ProfileIntent::DnsPrivacy,
                                profile@.dns == Some(dns@),
                                ips.len() == dns.upstream_ips@.len(),
                                i <= ips.len(),
                                dns_routes(ips, gw) == prepend(graph@, dns_routes(ips.skip(i as int), gw)),
                            decreases dns.upstream_ips.len() - i,
                        {
                            let ip_str = dns.upstream_ips[i].as_str();
                            assert(ip_str@ == ips[i as int]);
                            assert(ips.skip(i as int)[0] == ips[i as int]);
                            assert(ips.skip(i as int).drop_first() =~= ips.skip(i + 1));
                            let target = match canonical_ip(ip_str) {
                                Some(t) => t,
                                None => {
                                    return Err(text_with("Invalid IP address in DnsPrivacy profile: ", ip_str));
                                },
                            };
                            if !is_valid_interface_or_ip(default_gateway) {
                                return Err(text_with("Invalid via interface/IP: ", default_gateway));
                            }
                            let ghost before = graph@;
                            graph.push(NetworkCapability::AddRoute { target, via: owned(default_gateway) });
                            assert(graph@ =~= before + seq![graph@.last()]);
                            proof {
                                let rest = dns_routes(ips.skip(i + 1), gw);
                                match rest {
                                    Ok(x) => {
                                        assert(before + (seq![graph@.last()] + x) =~= graph@ + x);
                                    },
                                    Err(_) => {},
                                }
                            }
                            i = i + 1;
                        }
                        assert(ips.skip(i as int) =~= Seq::<Seq<char>>::empty());
                        assert(graph@ + Seq::<CapView>::empty() =~= graph@);
                        graph.push(accept_tcp_rule(853));
                    },
                    None => {
                        return Err(owned("DnsPrivacy intent requires 'dns' configuration"));
                    },
                }
            },
            ProfileIntent::EchPreserve => {
                graph.push(accept_tcp_rule(443));
            },
            ProfileIntent::UserTunnel => {
                let via = "wg0";
                if !is_valid_interface_or_ip(via) {
                    return Err(text_with("Invalid via interface/IP: ", via));
                }
                graph.push(NetworkCapability::AddRoute { target: owned("0.0.0.0/0"), via: owned("10.0.0.1") });
            },
            ProfileIntent::SafeMtu => {
                let interface = "pppoe-wan";
                if !is_valid_interface_or_ip(interface) {
                    return Err(text_with("Invalid interface: ", interface));
                }
                graph.push(NetworkCapability::SetMtu { interface: owned(interface), mtu: 1492 });
            },
            ProfileIntent::RecoverySafeMode => {
                graph.push(NetworkCapability::FlushRouteCache);
            },
            ProfileIntent::ObliviousDns => {
                return Err(owned("No capability plan for intent ObliviousDns"));
            },
            ProfileIntent::MasqueObfuscation => {
                return Err(owned("No capability plan for intent MasqueObfuscation"));
            },
        }
        Ok(graph)
    }

    /// The plan through `10.0.0.1`, with the SHA-256 of its JSON text, as
    /// the evidence of a run that changed nothing.
    pub fn dry_run(profile: &ProfileSchema, refusal_reason: &str) -> (r: Result<DryRunEvidence, String>)
        ensures
            match plan_spec(profile@, "10.0.0.1"@) {
                Ok(steps) => match r {
                    Ok(ev) => {
                        &&& ev.execution_mode@ == "dry_run"@
                        &&& !ev.mutation_performed
                        &&& ev.profile_name@ == profile.name@
                        &&& ev.plan_steps@ == steps
                        &&& ev.plan_sha256@ == sha256_hex_spec(graph_json(steps))
                        &&& ev.refusal_reason@ == refusal_reason@
                    },
                    Err(_) => false,
                },
                Err(e) => match r {
                    Ok(_) => false,
                    Err(m) => m@ == e,
                },
            },
    {
        let steps = match Self::plan(profile, "10.0.0.1") {
            Ok(s) => s,
            Err(e) => return Err(e),
        };
        let steps_json = steps.to_json();
        let plan_sha256 = sha256_hex(steps_json.as_str());
        Ok(DryRunEvidence {
            execution_mode: owned("dry_run"),
            mutation_performed: false,
            profile_name: profile.name.clone(),
            plan_steps: steps,
            plan_sha256,
            refusal_reason: owned(refusal_reason),
        })
    }
}

} // verus!
