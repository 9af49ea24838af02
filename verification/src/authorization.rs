use vstd::prelude::*;
use vstd::string::StringExecFns;
use crate::text::{chars_of, copy_range, starts_with_chars, str_eq, string_from_chars};

verus! {

/// How a tool's permission is set.
#[derive(Clone, Copy, Debug, PartialEq, Eq, Structural)]
pub enum ToolPermissionMode {
    Allow,
    Deny,
    Confirm,
}

/// What the user's choice in a permission prompt amounts to: whether the
/// call may run, and the tool whose standing permission is to be saved,
/// with its mode.
pub struct PermissionOutcome {
    pub allowed: bool,
    pub persist: Option<(String, ToolPermissionMode)>,
}

/// The message when the user refused a tool call.
pub const DENIED_MESSAGE: &'static str = "Permission to run tool denied by user";

/// The prefixes of the options that set a standing permission, with their
/// modes, in the order they are tried.
pub open spec fn always_prefixes() -> Seq<(Seq<char>, ToolPermissionMode)> {
    seq![
        ("always_allow:"@, ToolPermissionMode::Allow),
        ("always_deny:"@, ToolPermissionMode::Deny),
        ("always_allow_mcp:"@, ToolPermissionMode::Allow),
        ("always_deny_mcp:"@, ToolPermissionMode::Deny),
    ]
}

/// Whether `s` starts with `p`.
pub open spec fn starts_with(s: Seq<char>, p: Seq<char>) -> bool {
    p.len() <= s.len() && s.take(p.len() as int) == p
}

/// The first standing-permission prefix, from position `i` on, that the
/// option starts with.
pub open spec fn first_always_prefix(option: Seq<char>, i: int) -> Option<int>
    decreases 4 - i,
{
    if i < 0 || i >= 4 {
        None
    } else if starts_with(option, always_prefixes()[i].0) {
        Some(i)
    } else {
        first_always_prefix(option, i + 1)
    }
}

/// What a chosen option means: a standing permission for the tool named
/// after its prefix (allowed only when it allows); `allow` or `deny` for
/// this call only; any other option refuses the call.
pub open spec fn spec_permission_outcome(option: Seq<char>) -> (bool, Option<(Seq<char>, ToolPermissionMode)>) {
    match first_always_prefix(option, 0) {
        Some(i) => {
            let (p, mode) = always_prefixes()[i];
            (mode == ToolPermissionMode::Allow, Some((option.skip(p.len() as int), mode)))
        },
        None => (option == "allow"@, None),
    }
}

/// The plain form of an outcome.
pub open spec fn outcome_view(o: PermissionOutcome) -> (bool, Option<(Seq<char>, ToolPermissionMode)>) {
    (
        o.allowed,
        match o.persist {
            Some((t, m)) => Some((t@, m)),
            None => None,
        },
    )
}

fn prefix_chars(i: usize) -> (r: (Vec<char>, ToolPermissionMode))
    requires
        i < 4,
    ensures
        r.0@ == always_prefixes()[i as int].0,
        r.1 == always_prefixes()[i as int].1,
{
    if i == 0 {
        (chars_of("always_allow:"), ToolPermissionMode::Allow)
    } else if i == 1 {
        (chars_of("always_deny:"), ToolPermissionMode::Deny)
    } else if i == 2 {
        (chars_of("always_allow_mcp:"), ToolPermissionMode::Allow)
    } else {
        (chars_of("always_deny_mcp:"), ToolPermissionMode::Deny)
    }
}

/// Interprets the option the user chose in a permission prompt.
pub fn permission_outcome(option_id: &str) -> (r: PermissionOutcome)
    ensures
        outcome_view(r) == spec_permission_outcome(option_id@),
{
    let chars = chars_of(option_id);
    let mut i: usize = 0;
    while i < 4
        invariant
            i <= 4,
            chars@ == option_id@,
            first_always_prefix(option_id@, 0) == first_always_prefix(option_id@, i as int),
        decreases 4 - i,
    {
        let (p, mode) = prefix_chars(i);
        if starts_with_chars(&chars, &p) {
            let tool = copy_range(&chars, p.len(), chars.len());
            proof {
                assert(tool@ =~= option_id@.skip(p@.len() as int));
            }
            let allowed = match mode {
                ToolPermissionMode::Allow => true,
                _ => false,
            };
            return PermissionOutcome { allowed, persist: Some((string_from_chars(&tool), mode)) };
        }
        i = i + 1;
    }
    PermissionOutcome { allowed: str_eq(option_id, "allow"), persist: None }
}

/// What the current settings say of a tool call.
pub enum ToolPermissionDecision {
    Allow,
    Deny(String),
    Confirm,
}

/// How a pending permission prompt goes on after the settings changed.
pub enum PromptStep {
    /// Close the prompt as allowed.
    ResolveAllowed,
    /// Close the prompt as refused, with the reason.
    ResolveDenied(String),
    /// Keep waiting for the user.
    KeepWaiting,
}

/// The step after the settings changed while a prompt was open: a
/// definite answer from the settings closes the prompt; otherwise the user
/// is still asked.
pub fn on_settings_changed(decision: ToolPermissionDecision) -> (r: PromptStep)
    ensures
        match decision {
            ToolPermissionDecision::Allow => r is ResolveAllowed,
            ToolPermissionDecision::Deny(reason) => r == PromptStep::ResolveDenied(reason),
            ToolPermissionDecision::Confirm => r is KeepWaiting,
        },
{
    match decision {
        ToolPermissionDecision::Allow => PromptStep::ResolveAllowed,
        ToolPermissionDecision::Deny(reason) => PromptStep::ResolveDenied(reason),
        ToolPermissionDecision::Confirm => PromptStep::KeepWaiting,
    }
}

/// The choices of a sandbox permission prompt.
#[derive(Clone, Copy, Debug, PartialEq, Eq, Structural)]
pub enum SandboxPermission {
    AllowOnce,
    AllowThread,
    AllowAlways,
    Deny,
}

/// What a sandbox choice leads to: whether the command may run, whether the
/// request is granted for the rest of the thread, and whether it is saved
/// for good.
pub struct SandboxDecision {
    pub allowed: bool,
    pub grant_for_thread: bool,
    pub persist: bool,
}

/// What a sandbox choice (none for an option that is no sandbox choice)
/// leads to.
pub fn sandbox_decision(choice: Option<SandboxPermission>) -> (r: SandboxDecision)
    ensures
        r.allowed == (choice matches Some(c) && c != SandboxPermission::Deny),
        r.grant_for_thread == (choice == Some(SandboxPermission::AllowThread) || choice == Some(
            SandboxPermission::AllowAlways,
        )),
        r.persist == (choice == Some(SandboxPermission::AllowAlways)),
{
    match choice {
        Some(SandboxPermission::AllowOnce) => SandboxDecision {
            allowed: true,
            grant_for_thread: false,
            persist: false,
        },
        Some(SandboxPermission::AllowThread) => SandboxDecision {
            allowed: true,
            grant_for_thread: true,
            persist: false,
        },
        Some(SandboxPermission::AllowAlways) => SandboxDecision {
            allowed: true,
            grant_for_thread: true,
            persist: true,
        },
        Some(SandboxPermission::Deny) => SandboxDecision {
            allowed: false,
            grant_for_thread: false,
            persist: false,
        },
        None => SandboxDecision { allowed: false, grant_for_thread: false, persist: false },
    }
}

/// A change to the saved settings that records a standing permission.
pub enum SettingsEdit {
    AddAllowPattern { tool: String, pattern: String },
    AddDenyPattern { tool: String, pattern: String },
    SetDefaultPermission { tool: String, mode: ToolPermissionMode },
}

/// The edits that save a standing permission: with the terminal's command
/// patterns, one allow or deny pattern each (none for `Confirm`); without
/// them, the tool's default permission.
pub open spec fn spec_permission_edits(
    tool: Seq<char>,
    mode: ToolPermissionMode,
    patterns: Option<Seq<Seq<char>>>,
) -> Seq<(int, Seq<char>, Seq<char>, ToolPermissionMode)> {
    match patterns {
        Some(ps) => if mode == ToolPermissionMode::Confirm {
            seq![]
        } else {
            ps.map_values(
                |p: Seq<char>| (if mode == ToolPermissionMode::Allow { 0int } else { 1int }, tool, p, mode),
            )
        },
        None => seq![(2int, tool, seq![], mode)],
    }
}

/// The plain form of an edit: its kind, the tool, the pattern and the mode.
pub open spec fn edit_view(e: SettingsEdit) -> (int, Seq<char>, Seq<char>, ToolPermissionMode) {
    match e {
        SettingsEdit::AddAllowPattern { tool, pattern } => (0, tool@, pattern@, ToolPermissionMode::Allow),
        SettingsEdit::AddDenyPattern { tool, pattern } => (1, tool@, pattern@, ToolPermissionMode::Deny),
        SettingsEdit::SetDefaultPermission { tool, mode } => (2, tool@, seq![], mode),
    }
}

/// The settings edits that save a standing permission for `tool`.
pub fn permission_edits(tool: &str, mode: ToolPermissionMode, patterns: Option<&Vec<String>>) -> (r: Vec<
    SettingsEdit,
>)
    ensures
        r@.map_values(|e: SettingsEdit| edit_view(e)) == spec_permission_edits(
            tool@,
            mode,
            match patterns {
                Some(ps) => Some(ps@.map_values(|p: String| p@)),
                None => None,
            },
        ),
{
    let mut r: Vec<SettingsEdit> = Vec::new();
    match patterns {
        None => {
            r.push(SettingsEdit::SetDefaultPermission { tool: String::from_str(tool), mode });
            proof {
                assert(r@.map_values(|e: SettingsEdit| edit_view(e)) =~= seq![(2int, tool@, Seq::<char>::empty(), mode)]);
            }
        },
        Some(ps) => {
            if mode == ToolPermissionMode::Confirm {
                proof {
                    assert(r@.map_values(|e: SettingsEdit| edit_view(e)) =~= Seq::<(int, Seq<char>, Seq<char>, ToolPermissionMode)>::empty());
                }
                return r;
            }
            let ghost target = ps@.map_values(|p: String| p@).map_values(
                |p: Seq<char>| (if mode == ToolPermissionMode::Allow { 0int } else { 1int }, tool@, p, mode),
            );
            let mut i: usize = 0;
            while i < ps.len()
                invariant
                    i <= ps@.len(),
                    mode != ToolPermissionMode::Confirm,
                    target == ps@.map_values(|p: String| p@).map_values(
                        |p: Seq<char>| (if mode == ToolPermissionMode::Allow { 0int } else { 1int }, tool@, p, mode),
                    ),
                    r@.map_values(|e: SettingsEdit| edit_view(e)) == target.take(i as int),
                decreases ps@.len() - i,
            {
                let e = if mode == ToolPermissionMode::Allow {
                    SettingsEdit::AddAllowPattern { tool: String::from_str(tool), pattern: ps[i].clone() }
                } else {
                    SettingsEdit::AddDenyPattern { tool: String::from_str(tool), pattern: ps[i].clone() }
                };
                let ghost before = r@;
                r.push(e);
                proof {
                    assert(r@.map_values(|e: SettingsEdit| edit_view(e)) =~= before.map_values(
                        |e: SettingsEdit| edit_view(e),
                    ).push(edit_view(e)));
                    assert(target.take(i + 1) =~= target.take(i as int).push(target[i as int]));
                }
                i = i + 1;
            }
            proof {
                assert(target.take(ps@.len() as int) =~= target);
            }
        },
    }
    r
}

/// What a sandboxed command asks for.
pub struct SandboxRequest {
    pub network: bool,
    pub allow_fs_write_all: bool,
    pub unsandboxed: bool,
    pub write_paths: Vec<String>,
}

/// A change to the saved sandbox settings.
pub enum SandboxEdit {
    AllowNetwork,
    AllowFsWriteAll,
    AllowUnsandboxed,
    AddWritePath(String),
}

/// The plain form of a sandbox edit.
pub open spec fn sandbox_edit_view(e: SandboxEdit) -> (int, Seq<char>) {
    match e {
        SandboxEdit::AllowNetwork => (0, seq![]),
        SandboxEdit::AllowFsWriteAll => (1, seq![]),
        SandboxEdit::AllowUnsandboxed => (2, seq![]),
        SandboxEdit::AddWritePath(p) => (3, p@),
    }
}

/// The edits that save a sandbox request for good: each permission it asks
/// for, then each write path, in order.
pub open spec fn spec_sandbox_edits(network: bool, fs_all: bool, unsandboxed: bool, paths: Seq<Seq<char>>) -> Seq<
    (int, Seq<char>),
> {
    (if network { seq![(0int, Seq::<char>::empty())] } else { seq![] }) + (if fs_all {
        seq![(1int, Seq::<char>::empty())]
    } else {
        seq![]
    }) + (if unsandboxed { seq![(2int, Seq::<char>::empty())] } else { seq![] }) + paths.map_values(
        |p: Seq<char>| (3int, p),
    )
}

/// The settings edits that save a sandbox request for good.
pub fn sandbox_edits(request: &SandboxRequest) -> (r: Vec<SandboxEdit>)
    ensures
        r@.map_values(|e: SandboxEdit| sandbox_edit_view(e)) == spec_sandbox_edits(
            request.network,
            request.allow_fs_write_all,
            request.unsandboxed,
            request.write_paths@.map_values(|p: String| p@),
        ),
{
    let mut r: Vec<SandboxEdit> = Vec::new();
    if request.network {
        r.push(SandboxEdit::AllowNetwork);
    }
    if request.allow_fs_write_all {
        r.push(SandboxEdit::AllowFsWriteAll);
    }
    if request.unsandboxed {
        r.push(SandboxEdit::AllowUnsandboxed);
    }
    let ghost head = r@.map_values(|e: SandboxEdit| sandbox_edit_view(e));
    proof {
        assert(head =~= (if request.network { seq![(0int, Seq::<char>::empty())] } else { seq![] }) + (
        if request.allow_fs_write_all {
            seq![(1int, Seq::<char>::empty())]
        } else {
            seq![]
        }) + (if request.unsandboxed { seq![(2int, Seq::<char>::empty())] } else { seq![] }));
    }
    let ghost paths = request.write_paths@.map_values(|p: String| p@).map_values(|p: Seq<char>| (3int, p));
    let mut i: usize = 0;
    while i < request.write_paths.len()
        invariant
            i <= request.write_paths@.len(),
            paths == request.write_paths@.map_values(|p: String| p@).map_values(|p: Seq<char>| (3int, p)),
            r@.map_values(|e: SandboxEdit| sandbox_edit_view(e)) == head + paths.take(i as int),
        decreases request.write_paths@.len() - i,
    {
        let ghost before = r@;
        r.push(SandboxEdit::AddWritePath(request.write_paths[i].clone()));
        proof {
            assert(r@.map_values(|e: SandboxEdit| sandbox_edit_view(e)) =~= before.map_values(
                |e: SandboxEdit| sandbox_edit_view(e),
            ).push((3int, request.write_paths@[i as int]@)));
            assert(paths.take(i + 1) =~= paths.take(i as int).push(paths[i as int]));
            assert(head + paths.take(i + 1) =~= (head + paths.take(i as int)).push(paths[i as int]));
        }
        i = i + 1;
    }
    proof {
        assert(paths.take(request.write_paths@.len() as int) =~= paths);
    }
    r
}

/// A choice that refuses the call never saves a standing allow, and a
/// standing permission allows the call exactly when it allows.
pub proof fn lemma_outcome_consistent(option: Seq<char>)
    ensures
        spec_permission_outcome(option).1 matches Some((_, mode)) ==> spec_permission_outcome(option).0
            == (mode == ToolPermissionMode::Allow),
{
}

// ---- tools of context servers ----

/// What choosing an option does.
#[derive(Clone, Copy, Debug, PartialEq, Eq, Structural)]
pub enum PermissionOptionKind {
    AllowOnce,
    AllowAlways,
    RejectOnce,
    RejectAlways,
}

/// An option of a permission prompt: its id, its label and its kind.
pub struct PermissionOption {
    pub id: String,
    pub name: String,
    pub kind: PermissionOptionKind,
}

/// A pair of options offered side by side.
pub struct PermissionChoice {
    pub allow: PermissionOption,
    pub deny: PermissionOption,
}

/// Whether an option has the given id, label and kind.
pub open spec fn is_option(o: PermissionOption, id: Seq<char>, name: Seq<char>, kind: PermissionOptionKind) -> bool {
    o.id@ == id && o.name@ == name && o.kind == kind
}

fn option(id: String, name: String, kind: PermissionOptionKind) -> (r: PermissionOption)
    ensures
        r.id == id,
        r.name == name,
        r.kind == kind,
{
    PermissionOption { id, name, kind }
}

fn prefixed(prefix: &str, rest: &str) -> (r: String)
    ensures
        r@ == prefix@ + rest@,
{
    let mut s = String::from_str(prefix);
    s.append(rest);
    s
}

/// The options for a tool of a context server, which has no patterns:
/// always allow or deny the tool, or allow or deny only this call.
pub fn third_party_options(tool_id: &str, display_name: &str) -> (r: Vec<PermissionChoice>)
    ensures
        r@.len() == 2,
        is_option(r@[0].allow, "always_allow_mcp:"@ + tool_id@, "Always for "@ + display_name@ + " MCP tool"@, PermissionOptionKind::AllowAlways),
        is_option(r@[0].deny, "always_deny_mcp:"@ + tool_id@, "Always for "@ + display_name@ + " MCP tool"@, PermissionOptionKind::RejectAlways),
        is_option(r@[1].allow, "allow"@, "Only this time"@, PermissionOptionKind::AllowOnce),
        is_option(r@[1].deny, "deny"@, "Only this time"@, PermissionOptionKind::RejectOnce),
{
    let mut label = String::from_str("Always for ");
    label.append(display_name);
    label.append(" MCP tool");
    let always = PermissionChoice {
        allow: option(prefixed("always_allow_mcp:", tool_id), label.clone(), PermissionOptionKind::AllowAlways),
        deny: option(prefixed("always_deny_mcp:", tool_id), label, PermissionOptionKind::RejectAlways),
    };
    let once = PermissionChoice {
        allow: option(String::from_str("allow"), String::from_str("Only this time"), PermissionOptionKind::AllowOnce),
        deny: option(String::from_str("deny"), String::from_str("Only this time"), PermissionOptionKind::RejectOnce),
    };
    let mut r: Vec<PermissionChoice> = Vec::new();
    r.push(always);
    r.push(once);
    r
}

/// An option of a sandbox permission prompt: the choice it stands for, its
/// label and its kind.
pub struct SandboxOption {
    pub choice: SandboxPermission,
    pub name: String,
    pub kind: PermissionOptionKind,
}

/// Whether a sandbox option has the given choice, label and kind.
pub open spec fn is_sandbox_option(
    o: SandboxOption,
    choice: SandboxPermission,
    name: Seq<char>,
    kind: PermissionOptionKind,
) -> bool {
    o.choice == choice && o.name@ == name && o.kind == kind
}

/// The options a sandbox permission prompt offers, in order: allow once,
/// allow for the thread, allow always, deny.
pub fn sandbox_options() -> (r: Vec<SandboxOption>)
    ensures
        r@.len() == 4,
        is_sandbox_option(r@[0], SandboxPermission::AllowOnce, "Allow once"@, PermissionOptionKind::AllowOnce),
        is_sandbox_option(r@[1], SandboxPermission::AllowThread, "Allow for this thread"@, PermissionOptionKind::AllowAlways),
        is_sandbox_option(r@[2], SandboxPermission::AllowAlways, "Allow always"@, PermissionOptionKind::AllowAlways),
        is_sandbox_option(r@[3], SandboxPermission::Deny, "Deny"@, PermissionOptionKind::RejectOnce),
{
    let mut r: Vec<SandboxOption> = Vec::new();
    r.push(SandboxOption {
        choice: SandboxPermission::AllowOnce,
        name: String::from_str("Allow once"),
        kind: PermissionOptionKind::AllowOnce,
    });
    r.push(SandboxOption {
        choice: SandboxPermission::AllowThread,
        name: String::from_str("Allow for this thread"),
        kind: PermissionOptionKind::AllowAlways,
    });
    r.push(SandboxOption {
        choice: SandboxPermission::AllowAlways,
        name: String::from_str("Allow always"),
        kind: PermissionOptionKind::AllowAlways,
    });
    r.push(SandboxOption {
        choice: SandboxPermission::Deny,
        name: String::from_str("Deny"),
        kind: PermissionOptionKind::RejectOnce,
    });
    r
}

/// The settings' decision for a call when the thread asks for changes to be
/// confirmed: what the settings allow outright is asked instead.
pub fn gate_for_verification(decision: ToolPermissionDecision, require_verification: bool) -> (r: ToolPermissionDecision)
    ensures
        require_verification && decision is Allow ==> r is Confirm,
        !(require_verification && decision is Allow) ==> r == decision,
{
    match decision {
        ToolPermissionDecision::Allow => if require_verification {
            ToolPermissionDecision::Confirm
        } else {
            ToolPermissionDecision::Allow
        },
        other => other,
    }
}

/// The options offered for a context server's tool are understood back:
/// "always allow" saves an allow for that tool and runs the call, "always
/// deny" saves a deny and refuses it, and the one-time options run or
/// refuse the call without saving anything.
pub proof fn lemma_third_party_options_understood(tool_id: Seq<char>)
    ensures
        spec_permission_outcome("always_allow_mcp:"@ + tool_id) == (true, Some((tool_id, ToolPermissionMode::Allow))),
        spec_permission_outcome("always_deny_mcp:"@ + tool_id) == (false, Some((tool_id, ToolPermissionMode::Deny))),
        spec_permission_outcome("allow"@) == (true, None::<(Seq<char>, ToolPermissionMode)>),
        spec_permission_outcome("deny"@) == (false, None::<(Seq<char>, ToolPermissionMode)>),
{
    reveal_strlit("always_allow:");
    reveal_strlit("always_deny:");
    reveal_strlit("always_allow_mcp:");
    reveal_strlit("always_deny_mcp:");
    reveal_strlit("allow");
    reveal_strlit("deny");
    let p0 = "always_allow:"@;
    let p1 = "always_deny:"@;
    let p2 = "always_allow_mcp:"@;
    let p3 = "always_deny_mcp:"@;
    assert(always_prefixes()[0].0 == p0 && always_prefixes()[1].0 == p1);
    assert(always_prefixes()[2].0 == p2 && always_prefixes()[3].0 == p3);
    let a = p2 + tool_id;
    let d = p3 + tool_id;
    if starts_with(a, p0) {
        assert(a.take(13)[12] == a[12]);
    }
    if starts_with(a, p1) {
        assert(a.take(12)[7] == a[7]);
    }
    assert(a.take(17) =~= p2);
    assert(a.skip(17) =~= tool_id);
    assert(first_always_prefix(a, 2) == Some(2int));
    assert(first_always_prefix(a, 1) == Some(2int));
    assert(first_always_prefix(a, 0) == Some(2int));
    if starts_with(d, p0) {
        assert(d.take(13)[7] == d[7]);
    }
    if starts_with(d, p1) {
        assert(d.take(12)[11] == d[11]);
    }
    if starts_with(d, p2) {
        assert(d.take(17)[7] == d[7]);
    }
    assert(d.take(16) =~= p3);
    assert(d.skip(16) =~= tool_id);
    assert(first_always_prefix(d, 3) == Some(3int));
    assert(first_always_prefix(d, 2) == Some(3int));
    assert(first_always_prefix(d, 1) == Some(3int));
    assert(first_always_prefix(d, 0) == Some(3int));
    assert(first_always_prefix("allow"@, 4) is None);
    assert(first_always_prefix("allow"@, 3) is None);
    assert(first_always_prefix("allow"@, 2) is None);
    assert(first_always_prefix("allow"@, 1) is None);
    assert(first_always_prefix("allow"@, 0) is None);
    assert(first_always_prefix("deny"@, 4) is None);
    assert(first_always_prefix("deny"@, 3) is None);
    assert(first_always_prefix("deny"@, 2) is None);
    assert(first_always_prefix("deny"@, 1) is None);
    assert(first_always_prefix("deny"@, 0) is None);
    assert("deny"@ != "allow"@) by {
        assert("deny"@[0] != "allow"@[0]);
    }
}

} // verus!
