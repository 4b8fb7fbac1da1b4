//! The capabilities a plan may ask of a router, and the compact JSON text
//! that a plan is hashed and stored as.
use vstd::prelude::*;
use crate::json_text::{json_field, json_literal, push_json_field_str, push_json_str, push_json_uint, push_mark};
use crate::text::decimal;

verus! {

#[derive(Clone, Copy, Debug, PartialEq, Eq, Structural)]
pub enum NftFamily {
    Inet,
}

#[derive(Clone, Copy, Debug, PartialEq, Eq, Structural)]
pub enum NftTable {
    Filter,
}

#[derive(Clone, Copy, Debug, PartialEq, Eq, Structural)]
pub enum NftChain {
    Forward,
}

#[derive(Clone, Copy, Debug, PartialEq, Eq, Structural)]
pub enum TransportProtocol {
    Tcp,
    Udp,
}

#[derive(Clone, Copy, Debug, PartialEq, Eq, Structural)]
pub enum NftAction {
    Accept,
    Drop,
    Reject,
}

/// One step of a plan.
#[derive(Clone, Debug)]
pub enum NetworkCapability {
    AddRoute { target: String, via: String },
    FlushRouteCache,
    AddNftRule {
        family: NftFamily,
        table: NftTable,
        chain: NftChain,
        protocol: TransportProtocol,
        dport: u16,
        rule_action: NftAction,
    },
    SetMtu { interface: String, mtu: u32 },
    CommitConfig,
}

pub enum CapView {
    AddRoute { target: Seq<char>, via: Seq<char> },
    FlushRouteCache,
    AddNftRule {
        family: NftFamily,
        table: NftTable,
        chain: NftChain,
        protocol: TransportProtocol,
        dport: u16,
        rule_action: NftAction,
    },
    SetMtu { interface: Seq<char>, mtu: u32 },
    CommitConfig,
}

impl View for NetworkCapability {
    type V = CapView;

    open spec fn view(&self) -> CapView {
        match self {
            NetworkCapability::AddRoute { target, via } => CapView::AddRoute { target: target@, via: via@ },
            NetworkCapability::FlushRouteCache => CapView::FlushRouteCache,
            NetworkCapability::AddNftRule { family, table, chain, protocol, dport, rule_action } => CapView::AddNftRule {
                family: *family,
                table: *table,
                chain: *chain,
                protocol: *protocol,
                dport: *dport,
                rule_action: *rule_action,
            },
            NetworkCapability::SetMtu { interface, mtu } => CapView::SetMtu { interface: interface@, mtu: *mtu },
            NetworkCapability::CommitConfig => CapView::CommitConfig,
        }
    }
}

/// The steps of a plan, in order.
#[derive(Clone, Debug)]
pub struct CapabilityGraph {
    pub network_caps: Vec<NetworkCapability>,
}

impl View for CapabilityGraph {
    type V = Seq<CapView>;

    open spec fn view(&self) -> Seq<CapView> {
        self.network_caps@.map_values(|c: NetworkCapability| c@)
    }
}

impl CapabilityGraph {
    /// An empty plan.
    pub fn new() -> (g: CapabilityGraph)
        ensures
            g@ == Seq::<CapView>::empty(),
    {
        let g = CapabilityGraph { network_caps: Vec::new() };
        assert(g@ =~= Seq::<CapView>::empty());
        g
    }

    /// Appends a step.
    pub fn push(&mut self, cap: NetworkCapability)
        ensures
            final(self)@ == old(self)@.push(cap@),
    {
        self.network_caps.push(cap);
        assert(self@ =~= old(self)@.push(cap@));
    }

    pub fn len(&self) -> (n: usize)
        ensures
            n == self@.len(),
    {
        self.network_caps.len()
    }
}

pub open spec fn family_name(f: NftFamily) -> Seq<char> {
    match f {
        NftFamily::Inet => "Inet"@,
    }
}

pub open spec fn table_name(t: NftTable) -> Seq<char> {
    match t {
        NftTable::Filter => "Filter"@,
    }
}

pub open spec fn chain_name(c: NftChain) -> Seq<char> {
    match c {
        NftChain::Forward => "Forward"@,
    }
}

pub open spec fn protocol_name(p: TransportProtocol) -> Seq<char> {
    match p {
        TransportProtocol::Tcp => "Tcp"@,
        TransportProtocol::Udp => "Udp"@,
    }
}

pub open spec fn action_name(a: NftAction) -> Seq<char> {
    match a {
        NftAction::Accept => "Accept"@,
        NftAction::Drop => "Drop"@,
        NftAction::Reject => "Reject"@,
    }
}

/// `"key":"value"` with both as JSON string literals.
pub open spec fn str_field(key: Seq<char>, value: Seq<char>) -> Seq<char> {
    json_field(key, json_literal(value))
}

/// One step as `serde_json` writes it: an object tagged by `"action"`, the
/// variant's fields following in declaration order.
pub open spec fn cap_json(c: CapView) -> Seq<char> {
    match c {
        CapView::AddRoute { target, via } => seq!['{'] + str_field("action"@, "AddRoute"@) + seq![','] + str_field(
            "target"@,
            target,
        ) + seq![','] + str_field("via"@, via) + seq!['}'],
        CapView::FlushRouteCache => seq!['{'] + str_field("action"@, "FlushRouteCache"@) + seq!['}'],
        CapView::AddNftRule { family, table, chain, protocol, dport, rule_action } => seq!['{'] + str_field(
            "action"@,
            "AddNftRule"@,
        ) + seq![','] + str_field("family"@, family_name(family)) + seq![','] + str_field("table"@, table_name(table))
            + seq![','] + str_field("chain"@, chain_name(chain)) + seq![','] + str_field(
            "protocol"@,
            protocol_name(protocol),
        ) + seq![','] + json_field("dport"@, decimal(dport as nat)) + seq![','] + str_field(
            "rule_action"@,
            action_name(rule_action),
        ) + seq!['}'],
        CapView::SetMtu { interface, mtu } => seq!['{'] + str_field("action"@, "SetMtu"@) + seq![','] + str_field(
            "interface"@,
            interface,
        ) + seq![','] + json_field("mtu"@, decimal(mtu as nat)) + seq!['}'],
        CapView::CommitConfig => seq!['{'] + str_field("action"@, "CommitConfig"@) + seq!['}'],
    }
}

/// Steps separated by commas.
pub open spec fn caps_json(s: Seq<CapView>) -> Seq<char>
    decreases s.len(),
{
    if s.len() == 0 {
        seq![]
    } else if s.len() == 1 {
        cap_json(s[0])
    } else {
        caps_json(s.drop_last()) + seq![','] + cap_json(s.last())
    }
}

/// A plan as `serde_json::to_string` writes it.
pub open spec fn graph_json(s: Seq<CapView>) -> Seq<char> {
    seq!['{'] + json_literal("network_caps"@) + seq![':', '['] + caps_json(s) + seq![']', '}']
}

fn push_name_field(out: &mut String, key: &str, value: &str)
    ensures
        final(out)@ == old(out)@ + seq![','] + str_field(key@, value@),
{
    push_mark(out, ',');
    push_json_field_str(out, key, value);
}

fn family_text(f: NftFamily) -> (r: &'static str)
    ensures
        r@ == family_name(f),
{
    match f {
        NftFamily::Inet => "Inet",
    }
}

fn table_text(t: NftTable) -> (r: &'static str)
    ensures
        r@ == table_name(t),
{
    match t {
        NftTable::Filter => "Filter",
    }
}

fn chain_text(c: NftChain) -> (r: &'static str)
    ensures
        r@ == chain_name(c),
{
    match c {
        NftChain::Forward => "Forward",
    }
}

fn protocol_text(p: TransportProtocol) -> (r: &'static str)
    ensures
        r@ == protocol_name(p),
{
    match p {
        TransportProtocol::Tcp => "Tcp",
        TransportProtocol::Udp => "Udp",
    }
}

fn action_text(a: NftAction) -> (r: &'static str)
    ensures
        r@ == action_name(a),
{
    match a {
        NftAction::Accept => "Accept",
        NftAction::Drop => "Drop",
        NftAction::Reject => "Reject",
    }
}

fn push_number_field(out: &mut String, key: &str, n: u64)
    ensures
        final(out)@ == old(out)@ + seq![','] + json_field(key@, decimal(n as nat)),
{
    push_mark(out, ',');
    push_json_str(out, key);
    push_mark(out, ':');
    push_json_uint(out, n);
    assert(out@ =~= old(out)@ + seq![','] + json_field(key@, decimal(n as nat)));
}

/// Appends the JSON text of one step.
pub fn push_cap_json(out: &mut String, c: &NetworkCapability)
    ensures
        final(out)@ == old(out)@ + cap_json(c@),
{
    let ghost start = out@;
    push_mark(out, '{');
    push_json_field_str(out, "action", match c {
        NetworkCapability::AddRoute { .. } => "AddRoute",
        NetworkCapability::FlushRouteCache => "FlushRouteCache",
        NetworkCapability::AddNftRule { .. } => "AddNftRule",
        NetworkCapability::SetMtu { .. } => "SetMtu",
        NetworkCapability::CommitConfig => "CommitConfig",
    });
    match c {
        NetworkCapability::AddRoute { target, via } => {
            push_name_field(out, "target", target.as_str());
            push_name_field(out, "via", via.as_str());
        },
        NetworkCapability::AddNftRule { family, table, chain, protocol, dport, rule_action } => {
            push_name_field(out, "family", family_text(*family));
            push_name_field(out, "table", table_text(*table));
            push_name_field(out, "chain", chain_text(*chain));
            push_name_field(out, "protocol", protocol_text(*protocol));
            push_number_field(out, "dport", *dport as u64);
            push_name_field(out, "rule_action", action_text(*rule_action));
        },
        NetworkCapability::SetMtu { interface, mtu } => {
            push_name_field(out, "interface", interface.as_str());
            push_number_field(out, "mtu", *mtu as u64);
        },
        _ => {},
    }
    push_mark(out, '}');
    assert(out@ =~= start + cap_json(c@));
}

impl CapabilityGraph {
    /// The plan's JSON text, as `serde_json::to_string` writes it.
    pub fn to_json(&self) -> (t: String)
        ensures
            t@ == graph_json(self@),
    {
        let mut out = String::new();
        push_mark(&mut out, '{');
        push_json_str(&mut out, "network_caps");
        push_mark(&mut out, ':');
        push_mark(&mut out, '[');
        let ghost head = out@;
        let mut i: usize = 0;
        while i < self.network_caps.len()
            invariant
                i <= self@.len(),
                self@.len() == self.network_caps@.len(),
                out@ == head + caps_json(self@.take(i as int)),
            decreases self.network_caps.len() - i,
        {
            let ghost part = self@.take(i + 1);
            assert(part.drop_last() =~= self@.take(i as int));
            assert(part.last() == self.network_caps@[i as int]@);
            if i > 0 {
                push_mark(&mut out, ',');
            }
            push_cap_json(&mut out, &self.network_caps[i]);
            if i == 0 {
                assert(part.len() == 1);
            }
            assert(out@ =~= head + caps_json(part));
            i = i + 1;
        }
        assert(self@.take(i as int) =~= self@);
        push_mark(&mut out, ']');
        push_mark(&mut out, '}');
        assert(out@ =~= graph_json(self@));
        out
    }
}

} // verus!
