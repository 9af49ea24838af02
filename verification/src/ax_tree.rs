use vstd::prelude::*;
use crate::accessibility::AccessibilityNode;
use crate::cdp::{all_digits, digits_value};
use crate::text::chars_of;

verus! {

// ---- node ids ----

/// How the browser gave a node id: as a JSON integer, as text, or as
/// something else.
pub enum AxId {
    Int(i64),
    Text(String),
    Other,
}

/// What `str::parse::<i64>` accepts: an optional `+` or `-`, then one or
/// more decimal digits whose value fits in `i64`.
pub open spec fn spec_parse_i64(s: Seq<char>) -> Option<i64> {
    let negative = s.len() > 1 && s[0] == '-';
    let d = if s.len() > 1 && (s[0] == '-' || s[0] == '+') { s.drop_first() } else { s };
    if d.len() == 0 || !all_digits(d) {
        None
    } else if negative {
        if digits_value(d) <= 0x8000_0000_0000_0000 {
            Some((0 - digits_value(d)) as i64)
        } else {
            None
        }
    } else if digits_value(d) <= i64::MAX {
        Some(digits_value(d) as i64)
    } else {
        None
    }
}

/// Parses a decimal integer as `str::parse::<i64>` does: none when the
/// text is not one or does not fit.
fn parse_i64(s: &str) -> (r: Option<i64>)
    ensures
        r == spec_parse_i64(s@),
{
    let chars = chars_of(s);
    let n = chars.len();
    let negative = n > 1 && chars[0] == '-';
    let start: usize = if n > 1 && (chars[0] == '-' || chars[0] == '+') { 1 } else { 0 };
    let ghost d = if s@.len() > 1 && (s@[0] == '-' || s@[0] == '+') { s@.drop_first() } else { s@ };
    proof {
        assert(d =~= chars@.skip(start as int));
    }
    if start == n {
        return None;
    }
    let limit: u128 = 0x8000_0000_0000_0000;
    let mut value: u128 = 0;
    let mut big = false;
    let mut i: usize = start;
    proof {
        assert(d.take(0) =~= Seq::<char>::empty());
    }
    while i < n
        invariant
            start <= i <= n,
            n == chars@.len(),
            chars@ == s@,
            d == chars@.skip(start as int),
            d == (if s@.len() > 1 && (s@[0] == '-' || s@[0] == '+') { s@.drop_first() } else { s@ }),
            limit == 0x8000_0000_0000_0000,
            forall|k: int| start <= k < i ==> '0' <= #[trigger] chars@[k] <= '9',
            !big ==> value == digits_value(d.take(i - start)) && value <= limit,
            big ==> digits_value(d.take(i - start)) > limit,
        decreases n - i,
    {
        let c = chars[i];
        if c < '0' || c > '9' {
            proof {
                assert(d[i - start] == c);
                assert(!all_digits(d));
            }
            return None;
        }
        proof {
            assert(d.take(i - start + 1).drop_last() =~= d.take(i - start));
            assert(d.take(i - start + 1).last() == c);
        }
        if !big {
            let v = value * 10 + (c as u32 - 48) as u128;
            if v > limit {
                big = true;
            } else {
                value = v;
            }
        }
        i = i + 1;
    }
    proof {
        assert(d.take(n - start) =~= d);
        assert forall|k: int| 0 <= k < d.len() implies '0' <= #[trigger] d[k] <= '9' by {
            assert(d[k] == chars@[start + k]);
        }
        assert(all_digits(d));
    }
    if big {
        return None;
    }
    if negative {
        if value == limit {
            Some(i64::MIN)
        } else {
            Some(0 - (value as i64))
        }
    } else if value <= 0x7fff_ffff_ffff_ffff {
        Some(value as i64)
    } else {
        None
    }
}

/// A node id: an integer as given, or text that parses as one.
pub open spec fn spec_ax_id(v: AxId) -> Option<i64> {
    match v {
        AxId::Int(i) => Some(i),
        AxId::Text(s) => spec_parse_i64(s@),
        AxId::Other => None,
    }
}

/// Reads a node id.
pub fn ax_id(v: &AxId) -> (r: Option<i64>)
    ensures
        r == spec_ax_id(*v),
{
    match v {
        AxId::Int(i) => Some(*i),
        AxId::Text(s) => parse_i64(s.as_str()),
        AxId::Other => None,
    }
}

// ---- the nodes as the browser lists them ----

/// A node of the flat list the browser returns for the whole tree.
pub struct RawAxNode {
    /// The `nodeId` field, if present.
    pub node_id: Option<AxId>,
    /// Whether the node has a `parentId` field.
    pub has_parent: bool,
    pub backend_dom_node_id: Option<u64>,
    /// The `childIds` entries, in order (none when the field is not a list).
    pub child_ids: Vec<AxId>,
    pub chrome_role: Option<String>,
    pub class_name: Option<String>,
    pub name: Option<String>,
    pub role: Option<String>,
}

/// The id a node is filed under.
pub open spec fn node_key(n: RawAxNode) -> Option<i64> {
    match n.node_id {
        Some(a) => spec_ax_id(a),
        None => None,
    }
}

/// The position of the node filed under `id`: the last one before `end`
/// with that id, as a later node replaces an earlier one.
pub open spec fn lookup_before(raw: Seq<RawAxNode>, id: i64, end: int) -> Option<int>
    decreases end,
{
    if end <= 0 || end > raw.len() {
        None
    } else if node_key(raw[end - 1]) == Some(id) {
        Some(end - 1)
    } else {
        lookup_before(raw, id, end - 1)
    }
}

pub open spec fn lookup(raw: Seq<RawAxNode>, id: i64) -> Option<int> {
    lookup_before(raw, id, raw.len() as int)
}

pub proof fn lemma_lookup_before(raw: Seq<RawAxNode>, id: i64, end: int)
    ensures
        lookup_before(raw, id, end) matches Some(i) ==> 0 <= i < end && i < raw.len() && node_key(raw[i])
            == Some(id),
    decreases end,
{
    if 0 < end <= raw.len() {
        lemma_lookup_before(raw, id, end - 1);
    }
}

/// The ids of a node's children that name filed nodes, in order.
pub open spec fn present_children(raw: Seq<RawAxNode>, ids: Seq<AxId>) -> Seq<i64>
    decreases ids.len(),
{
    if ids.len() == 0 {
        seq![]
    } else {
        present_children(raw, ids.drop_last()) + match spec_ax_id(ids.last()) {
            Some(c) => if lookup(raw, c) is Some {
                seq![c]
            } else {
                seq![]
            },
            None => seq![],
        }
    }
}

pub open spec fn opt_view(o: Option<String>) -> Option<Seq<char>> {
    match o {
        Some(s) => Some(s@),
        None => None,
    }
}

/// Whether `t` is the tree built for the node filed under `id`, down to
/// `depth` levels: it carries that node's fields, and, while depth is left,
/// one subtree per child that names a filed node, in order.
pub open spec fn builds(t: AccessibilityNode, raw: Seq<RawAxNode>, id: i64, depth: nat) -> bool
    decreases depth,
{
    match lookup(raw, id) {
        None => false,
        Some(i) => {
            let n = raw[i];
            let kids = present_children(raw, n.child_ids@);
            &&& t.backend_dom_node_id == n.backend_dom_node_id
            &&& opt_view(t.chrome_role) == opt_view(n.chrome_role)
            &&& opt_view(t.class_name) == opt_view(n.class_name)
            &&& opt_view(t.name) == opt_view(n.name)
            &&& opt_view(t.role) == opt_view(n.role)
            &&& if depth == 0 {
                t.child_nodes@.len() == 0
            } else {
                &&& t.child_nodes@.len() == kids.len()
                &&& forall|j: int|
                    0 <= j < kids.len() ==> builds(
                        #[trigger] t.child_nodes@[j],
                        raw,
                        kids[j],
                        (depth - 1) as nat,
                    )
            }
        },
    }
}

fn find(raw: &Vec<RawAxNode>, id: i64) -> (r: Option<usize>)
    ensures
        match r {
            Some(i) => lookup(raw@, id) == Some(i as int),
            None => lookup(raw@, id) is None,
        },
{
    let mut end: usize = raw.len();
    while end > 0
        invariant
            end <= raw@.len(),
            lookup(raw@, id) == lookup_before(raw@, id, end as int),
        decreases end,
    {
        let key = match &raw[end - 1].node_id {
            Some(a) => ax_id(a),
            None => None,
        };
        if key == Some(id) {
            return Some(end - 1);
        }
        end = end - 1;
    }
    None
}

fn copy_opt(o: &Option<String>) -> (r: Option<String>)
    ensures
        opt_view(r) == opt_view(*o),
{
    match o {
        Some(s) => Some(s.clone()),
        None => None,
    }
}

/// Builds the tree under the node filed under `id`, down to `depth` levels.
fn build(raw: &Vec<RawAxNode>, at: usize, id: i64, depth: usize) -> (t: AccessibilityNode)
    requires
        lookup(raw@, id) == Some(at as int),
    ensures
        builds(t, raw@, id, depth as nat),
    decreases depth,
{
    proof {
        lemma_lookup_before(raw@, id, raw@.len() as int);
    }
    let n = &raw[at];
    let ghost kids = present_children(raw@, n.child_ids@);
    let mut children: Vec<AccessibilityNode> = Vec::new();
    if depth > 0 {
        let mut k: usize = 0;
        while k < n.child_ids.len()
            invariant
                0 < depth,
                at < raw@.len(),
                n == raw@[at as int],
                k <= n.child_ids@.len(),
                children@.len() == present_children(raw@, n.child_ids@.take(k as int)).len(),
                forall|j: int|
                    0 <= j < children@.len() ==> builds(
                        #[trigger] children@[j],
                        raw@,
                        present_children(raw@, n.child_ids@.take(k as int))[j],
                        (depth - 1) as nat,
                    ),
            decreases n.child_ids@.len() - k,
        {
            let ghost before = present_children(raw@, n.child_ids@.take(k as int));
            proof {
                assert(n.child_ids@.take(k + 1).drop_last() =~= n.child_ids@.take(k as int));
                assert(n.child_ids@.take(k + 1).last() == n.child_ids@[k as int]);
            }
            match ax_id(&n.child_ids[k]) {
                Some(c) => match find(raw, c) {
                    Some(pos) => {
                        let child = build(raw, pos, c, depth - 1);
                        children.push(child);
                        proof {
                            assert(present_children(raw@, n.child_ids@.take(k + 1)) =~= before.push(c));
                        }
                    },
                    None => {
                        proof {
                            assert(present_children(raw@, n.child_ids@.take(k + 1)) =~= before);
                        }
                    },
                },
                None => {
                    proof {
                        assert(present_children(raw@, n.child_ids@.take(k + 1)) =~= before);
                    }
                },
            }
            k = k + 1;
        }
        proof {
            assert(n.child_ids@.take(n.child_ids@.len() as int) =~= n.child_ids@);
        }
    }
    AccessibilityNode {
        backend_dom_node_id: n.backend_dom_node_id,
        child_nodes: children,
        chrome_role: copy_opt(&n.chrome_role),
        class_name: copy_opt(&n.class_name),
        name: copy_opt(&n.name),
        role: copy_opt(&n.role),
    }
}

/// The first filed node without a parent, in list order.
pub open spec fn first_parentless_from(raw: Seq<RawAxNode>, i: int) -> Option<i64>
    decreases raw.len() - i,
{
    if i < 0 || i >= raw.len() {
        None
    } else {
        match node_key(raw[i]) {
            Some(k) => if lookup(raw, k) == Some(i) && !raw[i].has_parent {
                Some(k)
            } else {
                first_parentless_from(raw, i + 1)
            },
            None => first_parentless_from(raw, i + 1),
        }
    }
}

/// The root: the one the browser names, else a filed node without a
/// parent (the first in list order).
pub open spec fn spec_root(raw: Seq<RawAxNode>, given: Option<AxId>) -> Option<i64> {
    match (match given {
        Some(a) => spec_ax_id(a),
        None => None,
    }) {
        Some(k) => Some(k),
        None => first_parentless_from(raw, 0),
    }
}

fn root_id(raw: &Vec<RawAxNode>, given: &Option<AxId>) -> (r: Option<i64>)
    ensures
        r == spec_root(raw@, *given),
{
    let named = match given {
        Some(a) => ax_id(a),
        None => None,
    };
    if named.is_some() {
        return named;
    }
    assert(named is None);
    let mut i: usize = 0;
    while i < raw.len()
        invariant
            i <= raw@.len(),
            first_parentless_from(raw@, 0) == first_parentless_from(raw@, i as int),
            spec_root(raw@, *given) == first_parentless_from(raw@, 0),
        decreases raw@.len() - i,
    {
        let key = match &raw[i].node_id {
            Some(a) => ax_id(a),
            None => None,
        };
        if let Some(k) = key {
            if let Some(p) = find(raw, k) {
                if p == i && !raw[i].has_parent {
                    proof {
                        assert(node_key(raw@[i as int]) == Some(k));
                        assert(first_parentless_from(raw@, i as int) == Some(k));
                    }
                    return Some(k);
                }
            }
        }
        i = i + 1;
    }
    None
}

/// The page's accessibility tree from the browser's flat node list and the
/// root it names, if any: one tree under the root when the root is a filed
/// node, else none. Each path is followed down as many levels as there are
/// nodes, which reaches every node when the ids form no cycle.
pub fn accessibility_tree(raw: &Vec<RawAxNode>, given_root: &Option<AxId>) -> (r: Vec<AccessibilityNode>)
    ensures
        match spec_root(raw@, *given_root) {
            Some(k) => if lookup(raw@, k) is Some {
                r@.len() == 1 && builds(r@[0], raw@, k, raw@.len())
            } else {
                r@.len() == 0
            },
            None => r@.len() == 0,
        },
{
    let mut r: Vec<AccessibilityNode> = Vec::new();
    match root_id(raw, given_root) {
        Some(k) => match find(raw, k) {
            Some(at) => {
                let t = build(raw, at, k, raw.len());
                r.push(t);
            },
            None => {},
        },
        None => {},
    }
    r
}

} // verus!
