use vstd::prelude::*;
use vstd::string::StringExecFns;
use vstd::string::StrSliceExecFns;
use crate::text::{spec_dec, usize_dec_string};

verus! {

/// A node of a page's accessibility tree.
#[derive(Debug)]
pub struct AccessibilityNode {
    pub backend_dom_node_id: Option<u64>,
    pub child_nodes: Vec<AccessibilityNode>,
    pub chrome_role: Option<String>,
    pub class_name: Option<String>,
    pub name: Option<String>,
    pub role: Option<String>,
}

/// The nodes of a forest in pre-order: each node, then its subtree, then
/// the following siblings. Position `i` here is the node's index.
pub open spec fn flat_nodes(nodes: Seq<AccessibilityNode>) -> Seq<AccessibilityNode>
    decreases nodes,
{
    if nodes.len() == 0 {
        seq![]
    } else {
        proof {
            assert(decreases_to!(nodes => nodes[0]));
            assert(decreases_to!(nodes[0] => nodes[0].child_nodes));
            assert(decreases_to!(nodes[0].child_nodes => nodes[0].child_nodes@));
        }
        seq![nodes[0]] + flat_nodes(nodes[0].child_nodes@) + flat_nodes(nodes.drop_first())
    }
}

pub proof fn lemma_flat_concat(a: Seq<AccessibilityNode>, b: Seq<AccessibilityNode>)
    ensures
        flat_nodes(a + b) == flat_nodes(a) + flat_nodes(b),
    decreases a.len(),
{
    if a.len() == 0 {
        assert(a + b =~= b);
        assert(flat_nodes(a) =~= Seq::<AccessibilityNode>::empty());
        assert(flat_nodes(a) + flat_nodes(b) =~= flat_nodes(b));
    } else {
        assert((a + b)[0] == a[0]);
        assert((a + b).drop_first() =~= a.drop_first() + b);
        lemma_flat_concat(a.drop_first(), b);
        assert(flat_nodes(a + b) =~= flat_nodes(a) + flat_nodes(b));
    }
}

pub proof fn lemma_flat_single(n: AccessibilityNode)
    ensures
        flat_nodes(seq![n]) == seq![n] + flat_nodes(n.child_nodes@),
{
    let s = seq![n];
    assert(s.drop_first() =~= Seq::<AccessibilityNode>::empty());
    assert(flat_nodes(s.drop_first()) =~= Seq::<AccessibilityNode>::empty());
    assert(flat_nodes(s) =~= seq![n] + flat_nodes(n.child_nodes@));
}

pub proof fn lemma_flat_take_step(s: Seq<AccessibilityNode>, i: int)
    requires
        0 <= i < s.len(),
    ensures
        flat_nodes(s.take(i + 1)) == flat_nodes(s.take(i)) + seq![s[i]] + flat_nodes(s[i].child_nodes@),
{
    assert(s.take(i + 1) =~= s.take(i) + seq![s[i]]);
    lemma_flat_concat(s.take(i), seq![s[i]]);
    lemma_flat_single(s[i]);
    assert(flat_nodes(s.take(i)) + (seq![s[i]] + flat_nodes(s[i].child_nodes@)) =~= flat_nodes(s.take(i))
        + seq![s[i]] + flat_nodes(s[i].child_nodes@));
}

pub proof fn lemma_flat_split(s: Seq<AccessibilityNode>, j: int)
    requires
        0 <= j <= s.len(),
    ensures
        flat_nodes(s) == flat_nodes(s.take(j)) + flat_nodes(s.skip(j)),
{
    assert(s =~= s.take(j) + s.skip(j));
    lemma_flat_concat(s.take(j), s.skip(j));
}

/// The node at pre-order index `target - base`, counting from `base`.
fn find_node_rec<'a>(nodes: &'a [AccessibilityNode], target: usize, counter: &mut usize) -> (r: Option<
    &'a AccessibilityNode,
>)
    requires
        *old(counter) + flat_nodes(nodes@).len() <= usize::MAX,
    ensures
        match r {
            Some(n) => {
                &&& *old(counter) <= target < *old(counter) + flat_nodes(nodes@).len()
                &&& *n == flat_nodes(nodes@)[target - *old(counter)]
                &&& *final(counter) == target + 1
            },
            None => {
                &&& !(*old(counter) <= target < *old(counter) + flat_nodes(nodes@).len())
                &&& *final(counter) == *old(counter) + flat_nodes(nodes@).len()
            },
        },
    decreases nodes@,
{
    let ghost c0 = *counter;
    let mut i: usize = 0;
    proof {
        assert(nodes@.take(0) =~= Seq::<AccessibilityNode>::empty());
        assert(flat_nodes(nodes@.take(0)) =~= Seq::<AccessibilityNode>::empty());
        assert(nodes@.take(nodes@.len() as int) =~= nodes@);
    }
    while i < nodes.len()
        invariant
            i <= nodes@.len(),
            c0 == *old(counter),
            c0 + flat_nodes(nodes@).len() <= usize::MAX,
            *counter == c0 + flat_nodes(nodes@.take(i as int)).len(),
            !(c0 <= target < *counter),
            flat_nodes(nodes@.take(nodes@.len() as int)) == flat_nodes(nodes@),
        decreases nodes@.len() - i,
    {
        proof {
            lemma_flat_take_step(nodes@, i as int);
            lemma_flat_split(nodes@, i as int + 1);
        }
        let node = &nodes[i];
        let current = *counter;
        *counter = *counter + 1;
        if current == target {
            proof {
                let pre = flat_nodes(nodes@.take(i as int));
                let step = flat_nodes(nodes@.take(i as int + 1));
                assert(step[pre.len() as int] == nodes@[i as int]);
                assert(flat_nodes(nodes@)[target - c0] == step[target - c0]);
                assert(target - c0 < flat_nodes(nodes@).len());
            }
            return Some(node);
        }
        proof {
            assert(decreases_to!(nodes@ => nodes@[i as int]));
            assert(decreases_to!(nodes@[i as int] => nodes@[i as int].child_nodes));
            assert(decreases_to!(nodes@[i as int].child_nodes => nodes@[i as int].child_nodes@));
        }
        if node.child_nodes.len() > 0 {
            let ghost c1 = *counter;
            match find_node_rec(node.child_nodes.as_slice(), target, counter) {
                Some(found) => {
                    proof {
                        let pre = flat_nodes(nodes@.take(i as int));
                        let step = flat_nodes(nodes@.take(i as int + 1));
                        let sub = flat_nodes(node.child_nodes@);
                        assert(c1 == c0 + pre.len() + 1);
                        assert(step[pre.len() + 1 + (target - c1)] == sub[target - c1]);
                        assert(flat_nodes(nodes@)[target - c0] == step[target - c0]);
                        assert(target - c0 < flat_nodes(nodes@).len());
                    }
                    return Some(found);
                },
                None => {},
            }
        }
        i = i + 1;
    }
    proof {
        assert(nodes@.take(i as int) =~= nodes@);
    }
    None
}

/// The node at a pre-order index of the forest, if there is one.
pub fn find_node_by_index(nodes: &[AccessibilityNode], target_index: usize) -> (r: Option<&AccessibilityNode>)
    requires
        flat_nodes(nodes@).len() <= usize::MAX,
    ensures
        match r {
            Some(n) => target_index < flat_nodes(nodes@).len() && *n == flat_nodes(nodes@)[target_index as int],
            None => target_index >= flat_nodes(nodes@).len(),
        },
{
    let mut counter: usize = 0;
    find_node_rec(nodes, target_index, &mut counter)
}

/// The text of an optional string, empty when absent.
pub open spec fn opt_text(s: Option<String>) -> Seq<char> {
    match s {
        Some(t) => t@,
        None => seq![],
    }
}

/// How a node is listed: its index, then its role and name when present.
pub open spec fn node_label(index: nat, n: AccessibilityNode) -> Seq<char> {
    let name = opt_text(n.name);
    let role = opt_text(n.role);
    if name.len() == 0 && role.len() == 0 {
        spec_dec(index) + "\n"@
    } else if name.len() == 0 {
        spec_dec(index) + "\n  role: "@ + role + "\n"@
    } else if role.len() == 0 {
        spec_dec(index) + "\n  name: "@ + name + "\n"@
    } else {
        spec_dec(index) + "\n  role: "@ + role + ", name: "@ + name + "\n"@
    }
}

/// The labels of a node list numbered from `start`.
pub open spec fn labels(flat: Seq<AccessibilityNode>, start: nat) -> Seq<char>
    decreases flat.len(),
{
    if flat.len() == 0 {
        seq![]
    } else {
        labels(flat.drop_last(), start) + node_label((start + flat.len() - 1) as nat, flat.last())
    }
}

/// The listing of a forest: its nodes in pre-order, numbered from 0.
pub open spec fn spec_format_tree(nodes: Seq<AccessibilityNode>) -> Seq<char> {
    labels(flat_nodes(nodes), 0)
}

pub proof fn lemma_labels_concat(a: Seq<AccessibilityNode>, b: Seq<AccessibilityNode>, start: nat)
    ensures
        labels(a + b, start) == labels(a, start) + labels(b, start + a.len()),
    decreases b.len(),
{
    if b.len() == 0 {
        assert(a + b =~= a);
        assert(labels(a, start) + Seq::<char>::empty() =~= labels(a, start));
    } else {
        lemma_labels_concat(a, b.drop_last(), start);
        assert((a + b).drop_last() =~= a + b.drop_last());
        assert((a + b).last() == b.last());
        assert(labels(a + b, start) =~= labels(a, start) + labels(b, start + a.len()));
    }
}

fn label_text(index: usize, node: &AccessibilityNode) -> (s: String)
    ensures
        s@ == node_label(index as nat, *node),
{
    let idx = usize_dec_string(index);
    let name: &str = match &node.name {
        Some(n) => n.as_str(),
        None => "",
    };
    let role: &str = match &node.role {
        Some(r) => r.as_str(),
        None => "",
    };
    proof {
        reveal_strlit("");
    }
    let name_empty = name.unicode_len() == 0;
    let role_empty = role.unicode_len() == 0;
    if name_empty && role_empty {
        idx.concat("\n")
    } else if name_empty {
        idx.concat("\n  role: ").concat(role).concat("\n")
    } else if role_empty {
        idx.concat("\n  name: ").concat(name).concat("\n")
    } else {
        idx.concat("\n  role: ").concat(role).concat(", name: ").concat(name).concat("\n")
    }
}

/// Appends the listing of `node`'s subtree, numbering from `*index`.
fn node_to_text(node: &AccessibilityNode, index: &mut usize, output: &mut String)
    requires
        *old(index) + flat_nodes(seq![*node]).len() <= usize::MAX,
    ensures
        *final(index) == *old(index) + flat_nodes(seq![*node]).len(),
        final(output)@ == old(output)@ + labels(flat_nodes(seq![*node]), *old(index) as nat),
    decreases *node,
{
    proof {
        lemma_flat_single(*node);
    }
    let ghost i0 = *index;
    let ghost out0 = output@;
    let current = *index;
    *index = *index + 1;
    let label = label_text(current, node);
    output.append(label.as_str());
    proof {
        assert(labels(seq![*node], i0 as nat) =~= node_label(i0 as nat, *node)) by {
            assert(seq![*node].drop_last() =~= Seq::<AccessibilityNode>::empty());
            assert(labels(seq![*node].drop_last(), i0 as nat) =~= Seq::<char>::empty());
            assert(seq![*node].last() == *node);
            assert(labels(seq![*node], i0 as nat) == labels(seq![*node].drop_last(), i0 as nat) + node_label(
                i0 as nat,
                *node,
            ));
        }
    }
    let ghost kids = node.child_nodes@;
    let mut k: usize = 0;
    proof {
        assert(kids.take(0) =~= Seq::<AccessibilityNode>::empty());
        assert(flat_nodes(kids.take(0)) =~= Seq::<AccessibilityNode>::empty());
        lemma_flat_split(kids, 0);
    }
    while k < node.child_nodes.len()
        invariant
            kids == node.child_nodes@,
            k <= kids.len(),
            flat_nodes(seq![*node]) == seq![*node] + flat_nodes(kids),
            i0 + flat_nodes(seq![*node]).len() <= usize::MAX,
            *index == i0 + 1 + flat_nodes(kids.take(k as int)).len(),
            output@ == out0 + labels(seq![*node] + flat_nodes(kids.take(k as int)), i0 as nat),
        decreases kids.len() - k,
    {
        proof {
            lemma_flat_take_step(kids, k as int);
            lemma_flat_split(kids, k as int + 1);
            lemma_flat_single(kids[k as int]);
            assert(decreases_to!(*node => node.child_nodes));
            assert(decreases_to!(node.child_nodes => node.child_nodes@));
            assert(decreases_to!(node.child_nodes@ => node.child_nodes@[k as int]));
        }
        let ghost before_out = output@;
        let ghost before_idx = *index;
        node_to_text(&node.child_nodes[k], index, output);
        proof {
            let pre = seq![*node] + flat_nodes(kids.take(k as int));
            let add = flat_nodes(seq![kids[k as int]]);
            lemma_labels_concat(pre, add, i0 as nat);
            assert(before_idx == i0 + pre.len());
            assert(seq![*node] + flat_nodes(kids.take(k as int + 1)) =~= pre + add);
        }
        k = k + 1;
    }
    proof {
        assert(kids.take(kids.len() as int) =~= kids);
    }
}

/// The listing of an accessibility forest: one entry per node in pre-order,
/// numbered from 0, with the node's role and name when it has them.
pub fn format_accessibility_tree(nodes: &[AccessibilityNode]) -> (s: String)
    requires
        flat_nodes(nodes@).len() <= usize::MAX,
    ensures
        s@ == spec_format_tree(nodes@),
{
    let mut output = String::new();
    let mut index: usize = 0;
    let mut i: usize = 0;
    proof {
        assert(nodes@.take(0) =~= Seq::<AccessibilityNode>::empty());
        assert(flat_nodes(nodes@.take(0)) =~= Seq::<AccessibilityNode>::empty());
        assert(labels(Seq::<AccessibilityNode>::empty(), 0) =~= Seq::<char>::empty());
    }
    while i < nodes.len()
        invariant
            i <= nodes@.len(),
            flat_nodes(nodes@).len() <= usize::MAX,
            index == flat_nodes(nodes@.take(i as int)).len(),
            output@ == labels(flat_nodes(nodes@.take(i as int)), 0),
        decreases nodes@.len() - i,
    {
        proof {
            lemma_flat_take_step(nodes@, i as int);
            lemma_flat_split(nodes@, i as int + 1);
            lemma_flat_single(nodes@[i as int]);
        }
        node_to_text(&nodes[i], &mut index, &mut output);
        proof {
            lemma_labels_concat(flat_nodes(nodes@.take(i as int)), flat_nodes(seq![nodes@[i as int]]), 0);
            assert(flat_nodes(nodes@.take(i as int + 1)) =~= flat_nodes(nodes@.take(i as int)) + flat_nodes(
                seq![nodes@[i as int]],
            ));
        }
        i = i + 1;
    }
    proof {
        assert(nodes@.take(i as int) =~= nodes@);
    }
    output
}

/// The entry numbered `i` in the tree listing describes exactly the node
/// that `find_node_by_index(nodes, i)` returns: the listing is the labels of
/// the nodes before it, then `node_label(i, flat_nodes(nodes)[i])`, then the
/// labels of the nodes after it, numbered on from `i + 1`.
pub proof fn lemma_listing_matches_index(nodes: Seq<AccessibilityNode>, i: int)
    requires
        0 <= i < flat_nodes(nodes).len(),
    ensures
        spec_format_tree(nodes) == labels(flat_nodes(nodes).take(i), 0) + node_label(
            i as nat,
            flat_nodes(nodes)[i],
        ) + labels(flat_nodes(nodes).skip(i + 1), (i + 1) as nat),
{
    let f = flat_nodes(nodes);
    assert(f =~= f.take(i) + (seq![f[i]] + f.skip(i + 1)));
    lemma_labels_concat(f.take(i), seq![f[i]] + f.skip(i + 1), 0);
    lemma_labels_concat(seq![f[i]], f.skip(i + 1), i as nat);
    assert(seq![f[i]].drop_last() =~= Seq::<AccessibilityNode>::empty());
    assert(labels(seq![f[i]].drop_last(), i as nat) =~= Seq::<char>::empty());
    assert(labels(seq![f[i]], i as nat) == node_label(i as nat, f[i]));
}

} // verus!
