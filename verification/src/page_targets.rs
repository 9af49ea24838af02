use vstd::prelude::*;
use vstd::string::StringExecFns;
use crate::cdp::TabInfo;
use crate::text::str_eq;

verus! {

/// The plain form of a tab: its target id, title, URL and whether a
/// debugger is attached.
pub open spec fn tab_view(t: TabInfo) -> (Seq<char>, Seq<char>, Seq<char>, bool) {
    (t.target_id@, t.title@, t.url@, t.is_attached)
}

pub open spec fn tabs_view(ts: Seq<TabInfo>) -> Seq<(Seq<char>, Seq<char>, Seq<char>, bool)> {
    ts.map_values(|t: TabInfo| tab_view(t))
}

pub open spec fn text_or_empty(o: Option<String>) -> Seq<char> {
    match o {
        Some(s) => s@,
        None => Seq::<char>::empty(),
    }
}

fn copy_or_empty(o: &Option<String>) -> (r: String)
    ensures
        r@ == text_or_empty(*o),
{
    match o {
        Some(s) => s.clone(),
        None => String::new(),
    }
}

// ---- tabs ----

/// A target as `Target.getTargets` lists it: the fields that are strings or
/// booleans, when present.
pub struct TargetInfo {
    pub target_type: Option<String>,
    pub target_id: Option<String>,
    pub title: Option<String>,
    pub url: Option<String>,
    pub attached: Option<bool>,
}

/// Whether a target is a page.
pub open spec fn is_page_target(t: TargetInfo) -> bool {
    t.target_type matches Some(k) && k@ == "page"@
}

/// The tab a page target stands for; missing fields are empty or false.
pub open spec fn target_tab(t: TargetInfo) -> (Seq<char>, Seq<char>, Seq<char>, bool) {
    (
        text_or_empty(t.target_id),
        text_or_empty(t.title),
        text_or_empty(t.url),
        t.attached == Some(true),
    )
}

/// The tabs among the targets, in order.
pub open spec fn spec_page_tabs(ts: Seq<TargetInfo>) -> Seq<(Seq<char>, Seq<char>, Seq<char>, bool)>
    decreases ts.len(),
{
    if ts.len() == 0 {
        seq![]
    } else {
        spec_page_tabs(ts.drop_last()) + if is_page_target(ts.last()) {
            seq![target_tab(ts.last())]
        } else {
            seq![]
        }
    }
}

/// The open tabs: the page targets, in the order listed.
pub fn page_tabs(targets: &Vec<TargetInfo>) -> (r: Vec<TabInfo>)
    ensures
        tabs_view(r@) == spec_page_tabs(targets@),
{
    let mut r: Vec<TabInfo> = Vec::new();
    let mut i: usize = 0;
    proof {
        assert(targets@.take(0) =~= Seq::<TargetInfo>::empty());
        assert(tabs_view(r@) =~= spec_page_tabs(targets@.take(0)));
    }
    while i < targets.len()
        invariant
            i <= targets@.len(),
            tabs_view(r@) == spec_page_tabs(targets@.take(i as int)),
        decreases targets@.len() - i,
    {
        let t = &targets[i];
        let ghost before = r@;
        proof {
            assert(targets@.take(i + 1).drop_last() =~= targets@.take(i as int));
            assert(targets@.take(i + 1).last() == targets@[i as int]);
        }
        let page = match &t.target_type {
            Some(k) => str_eq(k.as_str(), "page"),
            None => false,
        };
        if page {
            let attached = match t.attached {
                Some(b) => b,
                None => false,
            };
            r.push(
                TabInfo {
                    target_id: copy_or_empty(&t.target_id),
                    title: copy_or_empty(&t.title),
                    url: copy_or_empty(&t.url),
                    is_attached: attached,
                },
            );
            proof {
                assert(tabs_view(r@) =~= tabs_view(before).push(target_tab(*t)));
                assert(tabs_view(r@) =~= spec_page_tabs(targets@.take(i + 1)));
            }
        } else {
            proof {
                assert(spec_page_tabs(targets@.take(i + 1)) =~= spec_page_tabs(targets@.take(i as int)));
            }
        }
        i = i + 1;
    }
    proof {
        assert(targets@.take(targets@.len() as int) =~= targets@);
    }
    r
}

// ---- frames ----

/// A frame as `Page.getFrameTree` describes it.
pub struct FrameInfo {
    pub id: Option<String>,
    pub title: Option<String>,
    pub url: Option<String>,
}

/// A node of the frame tree: its frame, if given, and its child frames.
pub struct FrameTree {
    pub frame: Option<FrameInfo>,
    pub children: Vec<FrameTree>,
}

/// The entry a node's own frame gives: none without a frame or an id; a
/// frame is always reported as attached.
pub open spec fn own_entry(t: FrameTree) -> Seq<(Seq<char>, Seq<char>, Seq<char>, bool)> {
    match t.frame {
        Some(f) => match f.id {
            Some(id) => seq![(id@, text_or_empty(f.title), text_or_empty(f.url), true)],
            None => seq![],
        },
        None => seq![],
    }
}

/// The frames of a list of trees in pre-order: each node's own frame, then
/// its children's, then the following trees'.
pub open spec fn frame_entries(ts: Seq<FrameTree>) -> Seq<(Seq<char>, Seq<char>, Seq<char>, bool)>
    decreases ts,
{
    if ts.len() == 0 {
        seq![]
    } else {
        proof {
            assert(decreases_to!(ts => ts[0]));
            assert(decreases_to!(ts[0] => ts[0].children));
            assert(decreases_to!(ts[0].children => ts[0].children@));
        }
        own_entry(ts[0]) + frame_entries(ts[0].children@) + frame_entries(ts.drop_first())
    }
}

proof fn lemma_frame_entries_concat(a: Seq<FrameTree>, b: Seq<FrameTree>)
    ensures
        frame_entries(a + b) == frame_entries(a) + frame_entries(b),
    decreases a.len(),
{
    if a.len() == 0 {
        assert(a + b =~= b);
        assert(frame_entries(a) + frame_entries(b) =~= frame_entries(b));
    } else {
        assert((a + b)[0] == a[0]);
        assert((a + b).drop_first() =~= a.drop_first() + b);
        lemma_frame_entries_concat(a.drop_first(), b);
        assert(frame_entries(a + b) =~= frame_entries(a) + frame_entries(b));
    }
}

proof fn lemma_frame_entries_single(t: FrameTree)
    ensures
        frame_entries(seq![t]) == own_entry(t) + frame_entries(t.children@),
{
    let s = seq![t];
    assert(s.drop_first() =~= Seq::<FrameTree>::empty());
    assert(s[0] == t);
    assert(frame_entries(s.drop_first()) =~= Seq::<(Seq<char>, Seq<char>, Seq<char>, bool)>::empty());
    assert(frame_entries(s) == own_entry(s[0]) + frame_entries(s[0].children@) + frame_entries(s.drop_first()));
    assert(frame_entries(s) =~= own_entry(t) + frame_entries(t.children@));
}

fn walk_frames(t: &FrameTree, out: &mut Vec<TabInfo>)
    ensures
        tabs_view(final(out)@) == tabs_view(old(out)@) + frame_entries(seq![*t]),
    decreases *t,
{
    proof {
        lemma_frame_entries_single(*t);
    }
    let ghost start = tabs_view(out@);
    if let Some(f) = &t.frame {
        if let Some(id) = &f.id {
            out.push(
                TabInfo {
                    target_id: id.clone(),
                    title: copy_or_empty(&f.title),
                    url: copy_or_empty(&f.url),
                    is_attached: true,
                },
            );
        }
    }
    proof {
        assert(tabs_view(out@) =~= start + own_entry(*t));
    }
    let ghost kids = t.children@;
    let mut k: usize = 0;
    proof {
        assert(kids.take(0) =~= Seq::<FrameTree>::empty());
        assert(start + own_entry(*t) + frame_entries(kids.take(0)) =~= start + own_entry(*t));
    }
    while k < t.children.len()
        invariant
            kids == t.children@,
            k <= kids.len(),
            tabs_view(out@) == start + own_entry(*t) + frame_entries(kids.take(k as int)),
        decreases kids.len() - k,
    {
        proof {
            assert(decreases_to!(*t => t.children));
            assert(decreases_to!(t.children => t.children@));
            assert(decreases_to!(t.children@ => t.children@[k as int]));
        }
        let ghost before = tabs_view(out@);
        walk_frames(&t.children[k], out);
        proof {
            assert(kids.take(k + 1) =~= kids.take(k as int) + seq![kids[k as int]]);
            lemma_frame_entries_concat(kids.take(k as int), seq![kids[k as int]]);
            assert(tabs_view(out@) =~= start + own_entry(*t) + frame_entries(kids.take(k + 1)));
        }
        k = k + 1;
    }
    proof {
        assert(kids.take(kids.len() as int) =~= kids);
    }
}

/// Every frame of the page, the main one first, in pre-order; frames
/// without an id are left out.
pub fn frame_list(tree: &FrameTree) -> (r: Vec<TabInfo>)
    ensures
        tabs_view(r@) == frame_entries(seq![*tree]),
{
    let mut out: Vec<TabInfo> = Vec::new();
    walk_frames(tree, &mut out);
    proof {
        assert(tabs_view(Seq::<TabInfo>::empty()) + frame_entries(seq![*tree]) =~= frame_entries(seq![*tree]));
    }
    out
}

} // verus!
