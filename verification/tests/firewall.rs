use stronghold::firewall::{
    FirewallConfiguration, FirewallRules, PeerId, RequestKind, Rule, RuleDirection, Verdict,
};

fn peer(name: &[u8]) -> PeerId {
    PeerId::from_bytes(name.to_vec())
}

const KINDS: [RequestKind; 7] = [
    RequestKind::CheckVault,
    RequestKind::CreateVault,
    RequestKind::WriteToVault,
    RequestKind::ListIds,
    RequestKind::ReadFromStore,
    RequestKind::WriteToStore,
    RequestKind::CallProcedure,
];

#[test]
fn firewall_without_rules_rejects() {
    let firewall = FirewallConfiguration::new(FirewallRules::empty());
    for kind in KINDS {
        assert_eq!(firewall.verdict(&peer(b"p"), RuleDirection::Inbound, kind), Verdict::Reject);
        assert_eq!(firewall.verdict(&peer(b"p"), RuleDirection::Outbound, kind), Verdict::Reject);
    }
    assert_eq!(firewall.effective_rule(&peer(b"p"), RuleDirection::Inbound), None);
}

#[test]
fn firewall_peer_rule_wins_over_default() {
    let mut firewall = FirewallConfiguration::new(FirewallRules::empty());
    firewall.set_default(RuleDirection::Inbound, Some(Rule::RejectAll));
    firewall.set_rule(&peer(b"friend"), RuleDirection::Inbound, Some(Rule::AllowAll));
    for kind in KINDS {
        assert_eq!(firewall.verdict(&peer(b"friend"), RuleDirection::Inbound, kind), Verdict::Allow);
        assert_eq!(firewall.verdict(&peer(b"other"), RuleDirection::Inbound, kind), Verdict::Reject);
        // The rule is for inbound requests only.
        assert_eq!(firewall.verdict(&peer(b"friend"), RuleDirection::Outbound, kind), Verdict::Reject);
    }
    firewall.set_default(RuleDirection::Inbound, Some(Rule::AllowAll));
    firewall.set_rule(&peer(b"foe"), RuleDirection::Inbound, Some(Rule::RejectAll));
    assert_eq!(
        firewall.verdict(&peer(b"foe"), RuleDirection::Inbound, RequestKind::ListIds),
        Verdict::Reject
    );
    assert_eq!(
        firewall.verdict(&peer(b"other"), RuleDirection::Inbound, RequestKind::ListIds),
        Verdict::Allow
    );
}

#[test]
fn firewall_default_applies_to_peers_without_rule() {
    let mut firewall = FirewallConfiguration::new(FirewallRules::empty());
    firewall.set_default(RuleDirection::Inbound, Some(Rule::AllowAll));
    for kind in KINDS {
        assert_eq!(firewall.verdict(&peer(b"anyone"), RuleDirection::Inbound, kind), Verdict::Allow);
    }
    firewall.set_default(RuleDirection::Inbound, None);
    assert_eq!(
        firewall.verdict(&peer(b"anyone"), RuleDirection::Inbound, RequestKind::CheckVault),
        Verdict::Reject
    );
}

#[test]
fn firewall_remove_rule_falls_back_to_default() {
    let mut firewall = FirewallConfiguration::new(FirewallRules {
        inbound: Some(Rule::Ask),
        outbound: Some(Rule::AllowAll),
    });
    firewall.set_rule(&peer(b"p"), RuleDirection::Inbound, Some(Rule::RejectAll));
    firewall.set_rule(&peer(b"p"), RuleDirection::Outbound, Some(Rule::RejectAll));
    assert_eq!(
        firewall.verdict(&peer(b"p"), RuleDirection::Inbound, RequestKind::ListIds),
        Verdict::Reject
    );
    firewall.remove_rule(&peer(b"p"), RuleDirection::Inbound);
    assert_eq!(
        firewall.verdict(&peer(b"p"), RuleDirection::Inbound, RequestKind::ListIds),
        Verdict::Ask
    );
    assert_eq!(
        firewall.verdict(&peer(b"p"), RuleDirection::Outbound, RequestKind::ListIds),
        Verdict::Reject
    );
    firewall.remove_rule(&peer(b"unknown"), RuleDirection::Inbound);
    assert_eq!(
        firewall.effective_rule(&peer(b"unknown"), RuleDirection::Outbound),
        Some(Rule::AllowAll)
    );
}

#[test]
fn restricted_rule_goes_by_the_kind_of_request() {
    let rule = Rule::Restricted {
        permitted: RequestKind::CheckVault.bit() | RequestKind::ReadFromStore.bit(),
    };
    assert_eq!(rule.verdict(RequestKind::CheckVault), Verdict::Allow);
    assert_eq!(rule.verdict(RequestKind::ReadFromStore), Verdict::Allow);
    assert_eq!(rule.verdict(RequestKind::CreateVault), Verdict::Reject);
    assert_eq!(rule.verdict(RequestKind::WriteToVault), Verdict::Reject);
    assert_eq!(rule.verdict(RequestKind::ListIds), Verdict::Reject);
    assert_eq!(rule.verdict(RequestKind::WriteToStore), Verdict::Reject);
    assert_eq!(rule.verdict(RequestKind::CallProcedure), Verdict::Reject);
    assert_eq!(Rule::Restricted { permitted: 0 }.verdict(RequestKind::CheckVault), Verdict::Reject);
    assert_eq!(Rule::Restricted { permitted: u32::MAX }.verdict(RequestKind::CallProcedure), Verdict::Allow);
    assert_eq!(Rule::Ask.verdict(RequestKind::ListIds), Verdict::Ask);
}

#[test]
fn request_kinds_have_distinct_bits() {
    let mut seen: u32 = 0;
    for kind in KINDS {
        let bit = kind.bit();
        assert_eq!(bit.count_ones(), 1);
        assert_eq!(seen & bit, 0);
        seen |= bit;
    }
    assert_eq!(seen, 127);
}

#[test]
fn firewall_rules_per_direction() {
    let rules = FirewallRules::empty();
    assert_eq!(rules.get(RuleDirection::Inbound), None);
    let rules = rules.replaced(RuleDirection::Inbound, Some(Rule::Ask));
    assert_eq!(rules.get(RuleDirection::Inbound), Some(Rule::Ask));
    assert_eq!(rules.get(RuleDirection::Outbound), None);
    let rules = rules.replaced(RuleDirection::Outbound, Some(Rule::AllowAll));
    assert_eq!(rules, FirewallRules { inbound: Some(Rule::Ask), outbound: Some(Rule::AllowAll) });
    assert_eq!(rules.replaced(RuleDirection::Inbound, None).get(RuleDirection::Inbound), None);
}

#[test]
fn peer_id_keeps_its_bytes() {
    let p = peer(b"peer");
    assert_eq!(p.as_bytes(), b"peer");
    assert_eq!(p.duplicate(), p);
    assert_ne!(p, peer(b"other"));
}
