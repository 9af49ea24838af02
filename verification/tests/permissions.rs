use tau_agent::authorization::{
    gate_for_verification, permission_outcome, third_party_options, PermissionOptionKind,
    ToolPermissionDecision, ToolPermissionMode,
};

#[test]
fn third_party_options_offer_always_and_once() {
    let options = third_party_options("mcp:search", "Search");
    assert_eq!(options.len(), 2);
    assert_eq!(options[0].allow.id, "always_allow_mcp:mcp:search");
    assert_eq!(options[0].allow.name, "Always for Search MCP tool");
    assert_eq!(options[0].allow.kind, PermissionOptionKind::AllowAlways);
    assert_eq!(options[0].deny.id, "always_deny_mcp:mcp:search");
    assert_eq!(options[0].deny.kind, PermissionOptionKind::RejectAlways);
    assert_eq!(options[1].allow.id, "allow");
    assert_eq!(options[1].allow.name, "Only this time");
    assert_eq!(options[1].deny.id, "deny");
    assert_eq!(options[1].deny.kind, PermissionOptionKind::RejectOnce);
}

#[test]
fn offered_options_are_understood_back() {
    let options = third_party_options("fetch", "Fetch");
    let allow = permission_outcome(&options[0].allow.id);
    assert!(allow.allowed);
    let (tool, mode) = allow.persist.unwrap();
    assert_eq!(tool, "fetch");
    assert_eq!(mode, ToolPermissionMode::Allow);
    let deny = permission_outcome(&options[0].deny.id);
    assert!(!deny.allowed);
    assert_eq!(deny.persist.unwrap().1, ToolPermissionMode::Deny);
    let once = permission_outcome(&options[1].allow.id);
    assert!(once.allowed);
    assert!(once.persist.is_none());
    assert!(!permission_outcome(&options[1].deny.id).allowed);
}

#[test]
fn verification_turns_allow_into_confirm() {
    assert!(matches!(gate_for_verification(ToolPermissionDecision::Allow, true), ToolPermissionDecision::Confirm));
    assert!(matches!(gate_for_verification(ToolPermissionDecision::Allow, false), ToolPermissionDecision::Allow));
    assert!(matches!(
        gate_for_verification(ToolPermissionDecision::Deny("no".to_string()), true),
        ToolPermissionDecision::Deny(r) if r == "no"
    ));
    assert!(matches!(gate_for_verification(ToolPermissionDecision::Confirm, false), ToolPermissionDecision::Confirm));
}
