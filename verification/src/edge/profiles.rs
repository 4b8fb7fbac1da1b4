//! Routing profiles: what an operator asks the agent for.
use vstd::prelude::*;

verus! {

/// What a profile asks for.
#[derive(Clone, Copy, Debug, PartialEq, Eq, Structural)]
pub enum ProfileIntent {
    DnsPrivacy,
    EchPreserve,
    UserTunnel,
    SafeMtu,
    RecoverySafeMode,
    ObliviousDns,
    MasqueObfuscation,
}

/// A static route asked for by a profile.
#[derive(Clone, Debug)]
pub struct RouteAction {
    pub target_cidr: String,
    pub via: Option<String>,
    pub interface: Option<String>,
    pub metric: Option<u32>,
}

pub struct RouteActionView {
    pub target_cidr: Seq<char>,
    pub via: Option<Seq<char>>,
    pub interface: Option<Seq<char>>,
    pub metric: Option<u32>,
}

pub open spec fn opt_text(o: Option<String>) -> Option<Seq<char>> {
    match o {
        Some(s) => Some(s@),
        None => None,
    }
}

impl View for RouteAction {
    type V = RouteActionView;

    open spec fn view(&self) -> RouteActionView {
        RouteActionView {
            target_cidr: self.target_cidr@,
            via: opt_text(self.via),
            interface: opt_text(self.interface),
            metric: self.metric,
        }
    }
}

/// Encrypted DNS upstreams.
#[derive(Clone, Debug)]
pub struct DnsAction {
    pub upstream_ips: Vec<String>,
    pub dot_hostname: Option<String>,
}

pub struct DnsActionView {
    pub upstream_ips: Seq<Seq<char>>,
    pub dot_hostname: Option<Seq<char>>,
}

impl View for DnsAction {
    type V = DnsActionView;

    open spec fn view(&self) -> DnsActionView {
        DnsActionView {
            upstream_ips: self.upstream_ips@.map_values(|s: String| s@),
            dot_hostname: opt_text(self.dot_hostname),
        }
    }
}

/// A named profile.
#[derive(Clone, Debug)]
pub struct ProfileSchema {
    pub name: String,
    pub intent: ProfileIntent,
    pub description: String,
    pub routes: Option<Vec<RouteAction>>,
    pub dns: Option<DnsAction>,
}

pub struct ProfileView {
    pub name: Seq<char>,
    pub intent: ProfileIntent,
    pub description: Seq<char>,
    pub routes: Option<Seq<RouteActionView>>,
    pub dns: Option<DnsActionView>,
}

impl View for ProfileSchema {
    type V = ProfileView;

    open spec fn view(&self) -> ProfileView {
        ProfileView {
            name: self.name@,
            intent: self.intent,
            description: self.description@,
            routes: match self.routes {
                Some(r) => Some(r@.map_values(|a: RouteAction| a@)),
                None => None,
            },
            dns: match self.dns {
                Some(d) => Some(d@),
                None => None,
            },
        }
    }
}

} // verus!
