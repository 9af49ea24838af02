use vstd::prelude::*;
use vstd::string::StringExecFns;
use heck::ToSnakeCase;
use crate::keyed::KeyedList;
use crate::text::{byte_len, byte_truncate, cuts_cleanly, str_eq, truncate_bytes, utf8_len};

verus! {

/// The longest tool name the model accepts, in bytes.
pub const MAX_TOOL_NAME_LENGTH: usize = 64;

/// The name under which the terminal is offered, whichever variant runs.
pub const TERMINAL_TOOL_NAME: &'static str = "terminal";

/// A tool built into the agent, with what the profile and the model say of
/// it.
pub struct BuiltinTool {
    pub name: String,
    /// `None` for ordinary tools; for the two terminal variants, whether it
    /// is the sandboxed one.
    pub terminal_variant: Option<bool>,
    /// The model's provider supports the tool.
    pub supports_provider: bool,
    /// The profile enables the tool (the terminal variants under the
    /// terminal's name).
    pub enabled_in_profile: bool,
    /// The tool's feature flag is on, for the name it is offered under.
    pub feature_enabled: bool,
}

/// A tool offered by a context server.
pub struct ContextServerTool {
    pub server_id: String,
    pub name: String,
    /// The profile enables this server's tool.
    pub enabled_in_profile: bool,
}

/// Which tool a name offered to the model stands for.
#[derive(Clone, Copy, Debug, PartialEq, Eq, Structural)]
pub enum ToolRef {
    Builtin(usize),
    ContextServer(usize),
}

/// What `heck::ToSnakeCase::to_snake_case` makes of a string.
pub uninterp spec fn snake_case_of(s: Seq<char>) -> Seq<char>;

/// Converts a string to snake case with heck's `to_snake_case`. The
/// contract only names the result.
#[verifier::external_body]
fn to_snake_case(s: &str) -> (r: String)
    ensures
        r@ == snake_case_of(s@),
{
    s.to_snake_case()
}

/// A name cut to the longest length the model accepts.
pub open spec fn cut_name(n: Seq<char>) -> Seq<char> {
    byte_truncate(n, MAX_TOOL_NAME_LENGTH as nat)
}

/// The name a built-in tool is offered under, if it is offered: only tools
/// the provider supports and the profile enables; of the two terminal
/// variants the one that matches the sandbox setting, as `terminal`; other
/// tools under their name, cut to the longest length.
pub open spec fn exposed_builtin(t: BuiltinTool, sandboxed: bool) -> Option<Seq<char>> {
    if !(t.supports_provider && t.enabled_in_profile) {
        None
    } else {
        match t.terminal_variant {
            Some(sb) => if sb == sandboxed { Some(TERMINAL_TOOL_NAME@) } else { None },
            None => Some(cut_name(t.name@)),
        }
    }
}

/// Whether a built-in tool's name has to be cut.
pub open spec fn builtin_needs_cut(t: BuiltinTool) -> bool {
    t.supports_provider && t.enabled_in_profile && t.terminal_variant is None
}

/// The built-in tools on offer, by name; a later tool under the same name
/// replaces an earlier one.
pub open spec fn builtin_map(ts: Seq<BuiltinTool>, sandboxed: bool) -> Map<Seq<char>, ToolRef>
    decreases ts.len(),
{
    if ts.len() == 0 {
        Map::empty()
    } else {
        let m = builtin_map(ts.drop_last(), sandboxed);
        match exposed_builtin(ts.last(), sandboxed) {
            Some(n) => if ts.last().feature_enabled {
                m.insert(n, ToolRef::Builtin((ts.len() - 1) as usize))
            } else {
                m
            },
            None => m,
        }
    }
}

/// The tools that need an open project.
pub open spec fn project_tools() -> Seq<Seq<char>> {
    seq![
        "read_file"@,
        "write_file"@,
        "edit_file"@,
        "create_directory"@,
        "delete_path"@,
        "move_path"@,
        "copy_path"@,
        "grep"@,
        "find_path"@,
        "list_directory"@,
        "search_semantic"@,
        "go_to_definition"@,
        "find_references"@,
        "rename_symbol"@,
        "diagnostics"@,
        "get_code_actions"@,
        "apply_code_action"@,
        "git_status"@,
        "git_commit"@,
        "git_push"@,
        "git_branch"@,
        "git_log"@,
    ]
}

/// The tools of `m` that stay when `names` are taken out.
pub open spec fn without_names(m: Map<Seq<char>, ToolRef>, names: Seq<Seq<char>>) -> Map<Seq<char>, ToolRef> {
    Map::new(|k: Seq<char>| m.contains_key(k) && !names.contains(k), |k: Seq<char>| m[k])
}

/// The built-in tools on offer with or without an open project.
pub open spec fn base_tools(ts: Seq<BuiltinTool>, sandboxed: bool, has_worktree: bool) -> Map<
    Seq<char>,
    ToolRef,
> {
    if has_worktree {
        builtin_map(ts, sandboxed)
    } else {
        without_names(builtin_map(ts, sandboxed), project_tools())
    }
}

/// The name of a context server tool, cut.
pub open spec fn ctx_name(c: ContextServerTool) -> Seq<char> {
    cut_name(c.name@)
}

/// Whether an enabled context server tool shares its name with a built-in
/// tool on offer or with another enabled context server tool.
pub open spec fn is_duplicate(base: Map<Seq<char>, ToolRef>, cs: Seq<ContextServerTool>, i: int) -> bool {
    base.contains_key(ctx_name(cs[i])) || exists|j: int|
        0 <= j < cs.len() && j != i && (#[trigger] cs[j]).enabled_in_profile && ctx_name(cs[j])
            == ctx_name(cs[i])
}

/// The room left for a server prefix in front of a name.
pub open spec fn prefix_room(name: Seq<char>) -> int {
    if utf8_len(name) >= MAX_TOOL_NAME_LENGTH { 0 } else { MAX_TOOL_NAME_LENGTH - utf8_len(name) }
}

/// The name a context server tool is offered under: its name, or, when the
/// name is taken twice and there is room, the server id in snake case, cut
/// to fit, an underscore and the name.
pub open spec fn ctx_key(base: Map<Seq<char>, ToolRef>, cs: Seq<ContextServerTool>, i: int) -> Seq<char> {
    let n = ctx_name(cs[i]);
    if is_duplicate(base, cs, i) && prefix_room(n) >= 2 {
        byte_truncate(snake_case_of(cs[i].server_id@), (prefix_room(n) - 1) as nat) + "_"@ + n
    } else {
        n
    }
}

/// The tools on offer after the first `k` context server tools were added,
/// in order; a later name replaces an earlier one.
pub open spec fn with_ctx_tools(base: Map<Seq<char>, ToolRef>, cs: Seq<ContextServerTool>, k: int) -> Map<
    Seq<char>,
    ToolRef,
>
    decreases k,
{
    if k <= 0 {
        base
    } else {
        let m = with_ctx_tools(base, cs, k - 1);
        if cs[k - 1].enabled_in_profile {
            m.insert(ctx_key(base, cs, k - 1), ToolRef::ContextServer((k - 1) as usize))
        } else {
            m
        }
    }
}

/// Whether every cut the assembly makes falls on a character boundary.
pub open spec fn cuts_are_clean(
    ts: Seq<BuiltinTool>,
    sandboxed: bool,
    has_worktree: bool,
    cs: Seq<ContextServerTool>,
) -> bool {
    &&& forall|i: int|
        0 <= i < ts.len() && builtin_needs_cut(#[trigger] ts[i]) ==> cuts_cleanly(
            ts[i].name@,
            MAX_TOOL_NAME_LENGTH as nat,
        )
    &&& forall|i: int|
        0 <= i < cs.len() && (#[trigger] cs[i]).enabled_in_profile ==> cuts_cleanly(
            cs[i].name@,
            MAX_TOOL_NAME_LENGTH as nat,
        )
    &&& forall|i: int|
        0 <= i < cs.len() && (#[trigger] cs[i]).enabled_in_profile && is_duplicate(
            base_tools(ts, sandboxed, has_worktree),
            cs,
            i,
        ) && prefix_room(ctx_name(cs[i])) >= 2 ==> cuts_cleanly(
            snake_case_of(cs[i].server_id@),
            (prefix_room(ctx_name(cs[i])) - 1) as nat,
        )
}

/// The tools offered to the model, by name.
pub open spec fn spec_enabled_tools(
    ts: Seq<BuiltinTool>,
    sandboxed: bool,
    has_worktree: bool,
    cs: Seq<ContextServerTool>,
) -> Map<Seq<char>, ToolRef> {
    with_ctx_tools(base_tools(ts, sandboxed, has_worktree), cs, cs.len() as int)
}

/// The name a built-in tool is offered under (before its feature flag is
/// asked), or an error where its name cannot be cut cleanly.
pub fn exposed_builtin_name(t: &BuiltinTool, sandboxed: bool) -> (r: Result<Option<String>, ()>)
    ensures
        r is Err <==> builtin_needs_cut(*t) && !cuts_cleanly(t.name@, MAX_TOOL_NAME_LENGTH as nat),
        r matches Ok(o) ==> match o {
            Some(n) => exposed_builtin(*t, sandboxed) == Some(n@),
            None => exposed_builtin(*t, sandboxed) is None,
        },
{
    if !(t.supports_provider && t.enabled_in_profile) {
        return Ok(None);
    }
    match t.terminal_variant {
        Some(sb) => if sb == sandboxed {
            Ok(Some(String::from_str(TERMINAL_TOOL_NAME)))
        } else {
            Ok(None)
        },
        None => match truncate_bytes(t.name.as_str(), MAX_TOOL_NAME_LENGTH) {
            Some(n) => Ok(Some(n)),
            None => Err(()),
        },
    }
}

fn project_tool_names() -> (r: [&'static str; 22])
    ensures
        forall|k: int| 0 <= k < 22 ==> (#[trigger] r@[k])@ == project_tools()[k],
{
    [
        "read_file",
        "write_file",
        "edit_file",
        "create_directory",
        "delete_path",
        "move_path",
        "copy_path",
        "grep",
        "find_path",
        "list_directory",
        "search_semantic",
        "go_to_definition",
        "find_references",
        "rename_symbol",
        "diagnostics",
        "get_code_actions",
        "apply_code_action",
        "git_status",
        "git_commit",
        "git_push",
        "git_branch",
        "git_log",
    ]
}

/// The tools offered to the model for a turn: the built-in tools that the
/// provider supports, the profile enables and their feature flags allow
/// (the terminal under one name), without the project tools when no project
/// is open, then the context server tools the profile enables; names are
/// cut to the longest length the model accepts, and a context server tool
/// whose name is taken twice gets its server's id in front. The tools are
/// kept, and listed by `entries`, in name order. None where a name would be
/// cut inside a character.
pub fn enabled_tools(
    builtins: &Vec<BuiltinTool>,
    sandboxed: bool,
    has_worktree: bool,
    context_tools: &Vec<ContextServerTool>,
) -> (r: Option<KeyedList<ToolRef>>)
    ensures
        r is Some <==> cuts_are_clean(builtins@, sandboxed, has_worktree, context_tools@),
        r matches Some(t) ==> t.wf() && t@ == spec_enabled_tools(
            builtins@,
            sandboxed,
            has_worktree,
            context_tools@,
        ),
{
    let ghost ts = builtins@;
    let ghost cs = context_tools@;
    let mut tools: KeyedList<ToolRef> = KeyedList::new();
    let mut i: usize = 0;
    while i < builtins.len()
        invariant
            ts == builtins@,
            i <= ts.len(),
            tools.wf(),
            tools@ == builtin_map(ts.take(i as int), sandboxed),
            forall|j: int|
                0 <= j < i && builtin_needs_cut(#[trigger] ts[j]) ==> cuts_cleanly(
                    ts[j].name@,
                    MAX_TOOL_NAME_LENGTH as nat,
                ),
        decreases ts.len() - i,
    {
        proof {
            assert(ts.take(i + 1).drop_last() =~= ts.take(i as int));
            assert(ts.take(i + 1).last() == ts[i as int]);
        }
        match exposed_builtin_name(&builtins[i], sandboxed) {
            Err(()) => {
                proof {
                    assert(!cuts_are_clean(ts, sandboxed, has_worktree, cs));
                }
                return None;
            },
            Ok(Some(n)) => {
                if builtins[i].feature_enabled {
                    tools.insert(n, ToolRef::Builtin(i));
                }
            },
            Ok(None) => {},
        }
        i = i + 1;
    }
    proof {
        assert(ts.take(ts.len() as int) =~= ts);
    }
    let ghost all_builtins = tools@;
    if !has_worktree {
        let names = project_tool_names();
        let mut p: usize = 0;
        while p < 22
            invariant
                p <= 22,
                tools.wf(),
                forall|k: int| 0 <= k < 22 ==> (#[trigger] names@[k])@ == project_tools()[k],
                tools@ == without_names(all_builtins, project_tools().take(p as int)),
            decreases 22 - p,
        {
            tools.remove(names[p]);
            proof {
                let prev = project_tools().take(p as int);
                let next = project_tools().take(p + 1);
                assert(next =~= prev.push(names@[p as int]@));
                assert forall|k: Seq<char>| #[trigger] next.contains(k) == (prev.contains(k) || k
                    == names@[p as int]@) by {
                    if next.contains(k) {
                        let w = choose|w: int| 0 <= w < next.len() && next[w] == k;
                        if w < p {
                            assert(prev[w] == k);
                        }
                    }
                    if prev.contains(k) {
                        let w = choose|w: int| 0 <= w < prev.len() && prev[w] == k;
                        assert(next[w] == k);
                    }
                    if k == names@[p as int]@ {
                        assert(next[p as int] == k);
                    }
                }
                assert(tools@ =~= without_names(all_builtins, next));
            }
            p = p + 1;
        }
        proof {
            assert(project_tools().take(22) =~= project_tools());
        }
    } else {
        proof {
            assert(tools@ == base_tools(ts, sandboxed, has_worktree));
        }
    }
    let ghost base = tools@;
    assert(base == base_tools(ts, sandboxed, has_worktree));

    // The names of the enabled context server tools, cut.
    let mut names: Vec<Option<String>> = Vec::new();
    let mut c: usize = 0;
    while c < context_tools.len()
        invariant
            cs == context_tools@,
            c <= cs.len(),
            names@.len() == c,
            forall|j: int|
                0 <= j < c ==> match #[trigger] names@[j] {
                    Some(n) => cs[j].enabled_in_profile && n@ == ctx_name(cs[j]),
                    None => !cs[j].enabled_in_profile,
                },
            forall|j: int|
                0 <= j < c && (#[trigger] cs[j]).enabled_in_profile ==> cuts_cleanly(
                    cs[j].name@,
                    MAX_TOOL_NAME_LENGTH as nat,
                ),
        decreases cs.len() - c,
    {
        let t = &context_tools[c];
        if t.enabled_in_profile {
            match truncate_bytes(t.name.as_str(), MAX_TOOL_NAME_LENGTH) {
                Some(n) => {
                    names.push(Some(n));
                },
                None => {
                    proof {
                        assert(!cuts_are_clean(ts, sandboxed, has_worktree, cs));
                    }
                    return None;
                },
            }
        } else {
            names.push(None);
        }
        c = c + 1;
    }

    // Whether each enabled name is taken twice.
    let mut dup: Vec<bool> = Vec::new();
    let mut a: usize = 0;
    while a < names.len()
        invariant
            cs == context_tools@,
            names@.len() == cs.len(),
            a <= cs.len(),
            dup@.len() == a,
            tools.wf(),
            tools@ == base,
            forall|j: int|
                0 <= j < cs.len() ==> match #[trigger] names@[j] {
                    Some(n) => cs[j].enabled_in_profile && n@ == ctx_name(cs[j]),
                    None => !cs[j].enabled_in_profile,
                },
            forall|j: int|
                0 <= j < a && cs[j].enabled_in_profile ==> #[trigger] dup@[j] == is_duplicate(base, cs, j),
        decreases cs.len() - a,
    {
        let d = match &names[a] {
            None => false,
            Some(n) => {
                let mut found = tools.contains_key(n.as_str());
                let mut b: usize = 0;
                while b < names.len()
                    invariant
                        cs == context_tools@,
                        names@.len() == cs.len(),
                        a < cs.len(),
                        b <= cs.len(),
                        names@[a as int] == Some(*n),
                        forall|j: int|
                            0 <= j < cs.len() ==> match #[trigger] names@[j] {
                                Some(m) => cs[j].enabled_in_profile && m@ == ctx_name(cs[j]),
                                None => !cs[j].enabled_in_profile,
                            },
                        found == (base.contains_key(n@) || exists|j: int|
                            0 <= j < b && j != a && (#[trigger] cs[j]).enabled_in_profile
                                && ctx_name(cs[j]) == n@),
                    decreases cs.len() - b,
                {
                    if b != a {
                        match &names[b] {
                            Some(m) => {
                                if str_eq(m.as_str(), n.as_str()) {
                                    found = true;
                                }
                            },
                            None => {},
                        }
                    }
                    proof {
                        assert(names@[b as int] == names@[b as int]);
                        if (base.contains_key(n@) || exists|j: int|
                            0 <= j < b + 1 && j != a && (#[trigger] cs[j]).enabled_in_profile
                                && ctx_name(cs[j]) == n@) {
                            if !(base.contains_key(n@) || exists|j: int|
                                0 <= j < b && j != a && (#[trigger] cs[j]).enabled_in_profile
                                    && ctx_name(cs[j]) == n@) {
                                assert(b != a && cs[b as int].enabled_in_profile && ctx_name(cs[b as int]) == n@);
                            }
                        }
                    }
                    b = b + 1;
                }
                found
            },
        };
        proof {
            assert(names@[a as int] == names@[a as int]);
        }
        dup.push(d);
        a = a + 1;
    }

    // The context server tools, in order.
    let mut k: usize = 0;
    while k < context_tools.len()
        invariant
            cs == context_tools@,
            ts == builtins@,
            names@.len() == cs.len(),
            dup@.len() == cs.len(),
            k <= cs.len(),
            tools.wf(),
            base == base_tools(ts, sandboxed, has_worktree),
            tools@ == with_ctx_tools(base, cs, k as int),
            forall|j: int|
                0 <= j < cs.len() ==> match #[trigger] names@[j] {
                    Some(n) => cs[j].enabled_in_profile && n@ == ctx_name(cs[j]),
                    None => !cs[j].enabled_in_profile,
                },
            forall|j: int| 0 <= j < cs.len() && cs[j].enabled_in_profile ==> #[trigger] dup@[j] == is_duplicate(base, cs, j),
            forall|j: int|
                0 <= j < cs.len() && (#[trigger] cs[j]).enabled_in_profile ==> cuts_cleanly(
                    cs[j].name@,
                    MAX_TOOL_NAME_LENGTH as nat,
                ),
            forall|j: int|
                0 <= j < ts.len() && builtin_needs_cut(#[trigger] ts[j]) ==> cuts_cleanly(
                    ts[j].name@,
                    MAX_TOOL_NAME_LENGTH as nat,
                ),
            forall|j: int|
                0 <= j < k && (#[trigger] cs[j]).enabled_in_profile && is_duplicate(base, cs, j)
                    && prefix_room(ctx_name(cs[j])) >= 2 ==> cuts_cleanly(
                    snake_case_of(cs[j].server_id@),
                    (prefix_room(ctx_name(cs[j])) - 1) as nat,
                ),
        decreases cs.len() - k,
    {
        proof {
            assert(names@[k as int] == names@[k as int]);
        }
        match &names[k] {
            None => {},
            Some(n) => {
                let ghost nv = n@;
                let key = if dup[k] {
                    let len = byte_len(n.as_str());
                    let room: usize = if len >= MAX_TOOL_NAME_LENGTH {
                        0
                    } else {
                        MAX_TOOL_NAME_LENGTH - len
                    };
                    if room >= 2 {
                        let snake = to_snake_case(context_tools[k].server_id.as_str());
                        match truncate_bytes(snake.as_str(), room - 1) {
                            Some(prefix) => {
                                let mut key = prefix;
                                key.append("_");
                                key.append(n.as_str());
                                key
                            },
                            None => {
                                proof {
                                    assert(!cuts_are_clean(ts, sandboxed, has_worktree, cs));
                                }
                                return None;
                            },
                        }
                    } else {
                        n.clone()
                    }
                } else {
                    n.clone()
                };
                proof {
                    assert(key@ == ctx_key(base, cs, k as int));
                }
                tools.insert(key, ToolRef::ContextServer(k));
            },
        }
        k = k + 1;
    }
    proof {
        assert(cuts_are_clean(ts, sandboxed, has_worktree, cs));
    }
    Some(tools)
}

} // verus!
