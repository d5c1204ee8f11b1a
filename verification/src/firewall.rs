//! The firewall: rules that decide which requests of which peers are served.
//!
//! A rule is kept per direction, for single peers and as a default. The
//! rule of a peer, where there is one, wins over the default; where
//! neither is set, the request is rejected.

use vstd::prelude::*;
use crate::bytes::copy_bytes;
use crate::keymap::KeyMap;

verus! {

/// The identity of a peer on the network.
#[derive(Clone, Debug, PartialEq, Eq)]
pub struct PeerId {
    bytes: Vec<u8>,
}

impl View for PeerId {
    type V = Seq<u8>;

    closed spec fn view(&self) -> Seq<u8> {
        self.bytes@
    }
}

impl PeerId {
    /// The peer identity with the given bytes.
    pub fn from_bytes(bytes: Vec<u8>) -> (peer: Self)
        ensures
            peer@ == bytes@,
    {
        PeerId { bytes }
    }

    /// The bytes of the identity.
    pub fn as_bytes(&self) -> (bytes: &[u8])
        ensures
            bytes@ == self@,
    {
        self.bytes.as_slice()
    }

    /// A copy of the identity.
    pub fn duplicate(&self) -> (peer: Self)
        ensures
            peer@ == self@,
    {
        PeerId { bytes: copy_bytes(self.bytes.as_slice()) }
    }
}

/// The kinds of request that a peer can send.
#[derive(Clone, Copy, Debug, PartialEq, Eq, Structural)]
pub enum RequestKind {
    CheckVault,
    CreateVault,
    WriteToVault,
    ListIds,
    ReadFromStore,
    WriteToStore,
    CallProcedure,
}

impl RequestKind {
    /// The bit that stands for the kind in a set of permitted kinds.
    pub open spec fn spec_bit(self) -> u32 {
        match self {
            RequestKind::CheckVault => 1,
            RequestKind::CreateVault => 2,
            RequestKind::WriteToVault => 4,
            RequestKind::ListIds => 8,
            RequestKind::ReadFromStore => 16,
            RequestKind::WriteToStore => 32,
            RequestKind::CallProcedure => 64,
        }
    }

    /// The bit that stands for the kind in a set of permitted kinds.
    #[verifier::when_used_as_spec(spec_bit)]
    pub fn bit(self) -> (bit: u32)
        ensures
            bit == self.spec_bit(),
    {
        match self {
            RequestKind::CheckVault => 1,
            RequestKind::CreateVault => 2,
            RequestKind::WriteToVault => 4,
            RequestKind::ListIds => 8,
            RequestKind::ReadFromStore => 16,
            RequestKind::WriteToStore => 32,
            RequestKind::CallProcedure => 64,
        }
    }
}

/// The direction of a request, seen from this node.
#[derive(Clone, Copy, Debug, PartialEq, Eq, Structural)]
pub enum RuleDirection {
    Inbound,
    Outbound,
}

/// What the firewall says of one request.
#[derive(Clone, Copy, Debug, PartialEq, Eq, Structural)]
pub enum Verdict {
    /// The request is served.
    Allow,
    /// The request is rejected.
    Reject,
    /// The application is to decide.
    Ask,
}

/// A firewall rule.
#[derive(Clone, Copy, Debug, PartialEq, Eq, Structural)]
pub enum Rule {
    /// Every request is served.
    AllowAll,
    /// Every request is rejected.
    RejectAll,
    /// The application is asked about every request.
    Ask,
    /// A request is served where the bit of its kind is set in `permitted`,
    /// and rejected otherwise.
    Restricted { permitted: u32 },
}

impl Rule {
    /// What the rule says of a request of kind `kind`.
    pub open spec fn spec_verdict(self, kind: RequestKind) -> Verdict {
        match self {
            Rule::AllowAll => Verdict::Allow,
            Rule::RejectAll => Verdict::Reject,
            Rule::Ask => Verdict::Ask,
            Rule::Restricted { permitted } => if permitted & kind.spec_bit() != 0 {
                Verdict::Allow
            } else {
                Verdict::Reject
            },
        }
    }

    /// What the rule says of a request of kind `kind`.
    #[verifier::when_used_as_spec(spec_verdict)]
    pub fn verdict(self, kind: RequestKind) -> (verdict: Verdict)
        ensures
            verdict == self.spec_verdict(kind),
    {
        match self {
            Rule::AllowAll => Verdict::Allow,
            Rule::RejectAll => Verdict::Reject,
            Rule::Ask => Verdict::Ask,
            Rule::Restricted { permitted } => if permitted & kind.bit() != 0 {
                Verdict::Allow
            } else {
                Verdict::Reject
            },
        }
    }
}

/// The rules of one peer, or the default rules: at most one per direction.
#[derive(Clone, Copy, Debug, PartialEq, Eq, Structural)]
pub struct FirewallRules {
    pub inbound: Option<Rule>,
    pub outbound: Option<Rule>,
}

impl FirewallRules {
    /// No rule in either direction.
    pub open spec fn spec_empty() -> Self {
        FirewallRules { inbound: None, outbound: None }
    }

    /// No rule in either direction.
    #[verifier::when_used_as_spec(spec_empty)]
    pub fn empty() -> (rules: Self)
        ensures
            rules == Self::spec_empty(),
    {
        FirewallRules { inbound: None, outbound: None }
    }

    /// The rule for `direction`.
    pub open spec fn spec_get(self, direction: RuleDirection) -> Option<Rule> {
        match direction {
            RuleDirection::Inbound => self.inbound,
            RuleDirection::Outbound => self.outbound,
        }
    }

    /// The rule for `direction`.
    #[verifier::when_used_as_spec(spec_get)]
    pub fn get(self, direction: RuleDirection) -> (rule: Option<Rule>)
        ensures
            rule == self.spec_get(direction),
    {
        match direction {
            RuleDirection::Inbound => self.inbound,
            RuleDirection::Outbound => self.outbound,
        }
    }

    /// These rules with the rule for `direction` replaced by `rule`.
    pub open spec fn spec_replaced(self, direction: RuleDirection, rule: Option<Rule>) -> Self {
        match direction {
            RuleDirection::Inbound => FirewallRules { inbound: rule, ..self },
            RuleDirection::Outbound => FirewallRules { outbound: rule, ..self },
        }
    }

    /// These rules with the rule for `direction` replaced by `rule`.
    #[verifier::when_used_as_spec(spec_replaced)]
    pub fn replaced(self, direction: RuleDirection, rule: Option<Rule>) -> (rules: Self)
        ensures
            rules == self.spec_replaced(direction, rule),
    {
        match direction {
            RuleDirection::Inbound => FirewallRules { inbound: rule, outbound: self.outbound },
            RuleDirection::Outbound => FirewallRules { inbound: self.inbound, outbound: rule },
        }
    }
}

/// The state of a firewall: the default rules and the rules of single peers.
#[verifier::ext_equal]
pub struct FirewallView {
    pub default: FirewallRules,
    pub peers: Map<Seq<u8>, FirewallRules>,
}

impl FirewallView {
    /// The firewall whose only rules are the default rules `default`.
    pub open spec fn new(default: FirewallRules) -> Self {
        FirewallView { default, peers: Map::empty() }
    }

    /// The rule set for `peer` itself in `direction`, if any.
    pub open spec fn peer_rule(self, peer: Seq<u8>, direction: RuleDirection) -> Option<Rule> {
        if self.peers.contains_key(peer) {
            self.peers[peer].spec_get(direction)
        } else {
            None
        }
    }

    /// The rule that applies to `peer` in `direction`: its own, or else
    /// the default.
    pub open spec fn effective_rule(self, peer: Seq<u8>, direction: RuleDirection) -> Option<Rule> {
        match self.peer_rule(peer, direction) {
            Some(rule) => Some(rule),
            None => self.default.spec_get(direction),
        }
    }

    /// What the firewall says of a request of kind `kind` between this
    /// node and `peer`: what the rule that applies says, and rejection
    /// where no rule applies.
    pub open spec fn verdict(self, peer: Seq<u8>, direction: RuleDirection, kind: RequestKind) -> Verdict {
        match self.effective_rule(peer, direction) {
            Some(rule) => rule.spec_verdict(kind),
            None => Verdict::Reject,
        }
    }

    /// The firewall after the default rule for `direction` is set to `rule`.
    pub open spec fn set_default(self, direction: RuleDirection, rule: Option<Rule>) -> Self {
        FirewallView { default: self.default.spec_replaced(direction, rule), ..self }
    }

    /// The rules of `peer`; no rules where it has none yet.
    pub open spec fn rules_of(self, peer: Seq<u8>) -> FirewallRules {
        if self.peers.contains_key(peer) {
            self.peers[peer]
        } else {
            FirewallRules::spec_empty()
        }
    }

    /// The firewall after the rule of `peer` for `direction` is set to `rule`.
    pub open spec fn set_rule(self, peer: Seq<u8>, direction: RuleDirection, rule: Option<Rule>) -> Self {
        FirewallView {
            peers: self.peers.insert(peer, self.rules_of(peer).spec_replaced(direction, rule)),
            ..self
        }
    }

    /// The firewall after the rule of `peer` for `direction` is removed.
    /// The default is untouched.
    pub open spec fn remove_rule(self, peer: Seq<u8>, direction: RuleDirection) -> Self {
        self.set_rule(peer, direction, None)
    }

    /// The firewall after the inbound rule of each of `peers` is set to
    /// `rule`, in the order of the list.
    pub open spec fn set_inbound_rules(self, peers: Seq<Seq<u8>>, rule: Rule) -> Self
        decreases peers.len(),
    {
        if peers.len() == 0 {
            self
        } else {
            self.set_inbound_rules(peers.drop_last(), rule).set_rule(
                peers.last(),
                RuleDirection::Inbound,
                Some(rule),
            )
        }
    }

    /// The firewall after the inbound rule of each of `peers` is removed.
    pub open spec fn remove_inbound_rules(self, peers: Seq<Seq<u8>>) -> Self
        decreases peers.len(),
    {
        if peers.len() == 0 {
            self
        } else {
            self.remove_inbound_rules(peers.drop_last()).remove_rule(
                peers.last(),
                RuleDirection::Inbound,
            )
        }
    }
}

/// The identities in a list of peers.
pub open spec fn peer_views(peers: Seq<PeerId>) -> Seq<Seq<u8>> {
    peers.map_values(|peer: PeerId| peer@)
}

/// The rule table of one node.
pub struct FirewallConfiguration {
    default: FirewallRules,
    peer_rules: KeyMap<FirewallRules>,
}

impl View for FirewallConfiguration {
    type V = FirewallView;

    closed spec fn view(&self) -> FirewallView {
        FirewallView { default: self.default, peers: self.peer_rules@ }
    }
}

impl FirewallConfiguration {
    /// A firewall whose only rules are the default rules `default`.
    pub fn new(default: FirewallRules) -> (firewall: Self)
        ensures
            firewall@ == FirewallView::new(default),
    {
        FirewallConfiguration { default, peer_rules: KeyMap::new() }
    }

    /// The rule that applies to `peer` in `direction`.
    pub fn effective_rule(&self, peer: &PeerId, direction: RuleDirection) -> (rule: Option<Rule>)
        ensures
            rule == self@.effective_rule(peer@, direction),
    {
        let own = match self.peer_rules.get(peer.as_bytes()) {
            Some(rules) => rules.get(direction),
            None => None,
        };
        match own {
            Some(rule) => Some(rule),
            None => self.default.get(direction),
        }
    }

    /// What the firewall says of a request of kind `kind` between this
    /// node and `peer`.
    pub fn verdict(&self, peer: &PeerId, direction: RuleDirection, kind: RequestKind) -> (verdict:
        Verdict)
        ensures
            verdict == self@.verdict(peer@, direction, kind),
    {
        match self.effective_rule(peer, direction) {
            Some(rule) => rule.verdict(kind),
            None => Verdict::Reject,
        }
    }

    /// Sets or removes the default rule for `direction`.
    pub fn set_default(&mut self, direction: RuleDirection, rule: Option<Rule>)
        ensures
            final(self)@ == old(self)@.set_default(direction, rule),
    {
        self.default = self.default.replaced(direction, rule);
    }

    /// Sets or removes the rule of `peer` for `direction`.
    pub fn set_rule(&mut self, peer: &PeerId, direction: RuleDirection, rule: Option<Rule>)
        ensures
            final(self)@ == old(self)@.set_rule(peer@, direction, rule),
    {
        let current = match self.peer_rules.get(peer.as_bytes()) {
            Some(rules) => *rules,
            None => FirewallRules::empty(),
        };
        self.peer_rules.insert(copy_bytes(peer.as_bytes()), current.replaced(direction, rule));
    }

    /// Removes the rule of `peer` for `direction`. The default is untouched.
    pub fn remove_rule(&mut self, peer: &PeerId, direction: RuleDirection)
        ensures
            final(self)@ == old(self)@.remove_rule(peer@, direction),
    {
        self.set_rule(peer, direction, None)
    }
}

/// Without any rule, every request is rejected.
pub proof fn lemma_default_deny(
    firewall: FirewallView,
    peer: Seq<u8>,
    direction: RuleDirection,
    kind: RequestKind,
)
    requires
        firewall.peer_rule(peer, direction) is None,
        firewall.default.spec_get(direction) is None,
    ensures
        firewall.verdict(peer, direction, kind) == Verdict::Reject,
{
}

/// A rule set for a peer decides the requests of that peer, whatever
/// the default says.
pub proof fn lemma_peer_rule_wins(
    firewall: FirewallView,
    peer: Seq<u8>,
    direction: RuleDirection,
    rule: Rule,
    kind: RequestKind,
)
    ensures
        firewall.set_rule(peer, direction, Some(rule)).verdict(peer, direction, kind)
            == rule.spec_verdict(kind),
        rule == Rule::AllowAll ==> firewall.set_rule(peer, direction, Some(rule)).verdict(
            peer,
            direction,
            kind,
        ) == Verdict::Allow,
{
}

/// The default rule decides the requests of every peer without a rule
/// of its own.
pub proof fn lemma_default_applies(
    firewall: FirewallView,
    peer: Seq<u8>,
    direction: RuleDirection,
    rule: Rule,
    kind: RequestKind,
)
    requires
        firewall.peer_rule(peer, direction) is None,
    ensures
        firewall.set_default(direction, Some(rule)).verdict(peer, direction, kind)
            == rule.spec_verdict(kind),
        rule == Rule::AllowAll ==> firewall.set_default(direction, Some(rule)).verdict(
            peer,
            direction,
            kind,
        ) == Verdict::Allow,
{
}

/// Removing the rule of a peer leaves the default, and the rules of all
/// other peers, as they were.
pub proof fn lemma_remove_keeps_default(
    firewall: FirewallView,
    peer: Seq<u8>,
    other: Seq<u8>,
    direction: RuleDirection,
    kind: RequestKind,
)
    ensures
        firewall.remove_rule(peer, direction).default == firewall.default,
        firewall.remove_rule(peer, direction).peer_rule(peer, direction) is None,
        firewall.remove_rule(peer, direction).verdict(peer, direction, kind) == (
        match firewall.default.spec_get(direction) {
            Some(rule) => rule.spec_verdict(kind),
            None => Verdict::Reject,
        }),
        other != peer ==> firewall.remove_rule(peer, direction).verdict(other, direction, kind)
            == firewall.verdict(other, direction, kind),
{
}

/// After the inbound rule of each of `peers` is set to `rule`, each of
/// them has that rule; the rules of all other peers, and the default,
/// are as they were.
pub proof fn lemma_set_inbound_rules(
    firewall: FirewallView,
    peers: Seq<Seq<u8>>,
    rule: Rule,
    peer: Seq<u8>,
)
    ensures
        firewall.set_inbound_rules(peers, rule).default == firewall.default,
        peers.contains(peer) ==> firewall.set_inbound_rules(peers, rule).peer_rule(
            peer,
            RuleDirection::Inbound,
        ) == Some(rule),
        !peers.contains(peer) ==> firewall.set_inbound_rules(peers, rule).peer_rule(
            peer,
            RuleDirection::Inbound,
        ) == firewall.peer_rule(peer, RuleDirection::Inbound),
        firewall.set_inbound_rules(peers, rule).peer_rule(peer, RuleDirection::Outbound)
            == firewall.peer_rule(peer, RuleDirection::Outbound),
    decreases peers.len(),
{
    if peers.len() > 0 {
        let front = peers.drop_last();
        lemma_set_inbound_rules(firewall, front, rule, peer);
        if peers.contains(peer) && peer != peers.last() {
            let i = choose|i: int| 0 <= i < peers.len() && peers[i] == peer;
            assert(front[i] == peer);
        }
        if front.contains(peer) {
            let i = choose|i: int| 0 <= i < front.len() && front[i] == peer;
            assert(peers[i] == peer);
        }
    }
}

/// After the inbound rule of each of `peers` is removed, none of them
/// has an inbound rule of its own; the rules of all other peers, and
/// the default, are as they were.
pub proof fn lemma_remove_inbound_rules(firewall: FirewallView, peers: Seq<Seq<u8>>, peer: Seq<u8>)
    ensures
        firewall.remove_inbound_rules(peers).default == firewall.default,
        peers.contains(peer) ==> firewall.remove_inbound_rules(peers).peer_rule(
            peer,
            RuleDirection::Inbound,
        ) is None,
        !peers.contains(peer) ==> firewall.remove_inbound_rules(peers).peer_rule(
            peer,
            RuleDirection::Inbound,
        ) == firewall.peer_rule(peer, RuleDirection::Inbound),
        firewall.remove_inbound_rules(peers).peer_rule(peer, RuleDirection::Outbound)
            == firewall.peer_rule(peer, RuleDirection::Outbound),
    decreases peers.len(),
{
    if peers.len() > 0 {
        let front = peers.drop_last();
        lemma_remove_inbound_rules(firewall, front, peer);
        if peers.contains(peer) && peer != peers.last() {
            let i = choose|i: int| 0 <= i < peers.len() && peers[i] == peer;
            assert(front[i] == peer);
        }
        if front.contains(peer) {
            let i = choose|i: int| 0 <= i < front.len() && front[i] == peer;
            assert(peers[i] == peer);
        }
    }
}

} // verus!
