use vstd::prelude::*;

use crate::request::{ReqView, VersionRequest, reqs_view};

verus! {

/// Abstract value of a work group: the tool name and the group's requests.
pub type GroupView = (Seq<char>, Seq<ReqView>);

/// All pending Version Requests for one tool, processed by exactly one
/// worker as an ordered, non-splittable unit.
pub struct WorkGroup {
    pub tool_name: String,
    pub requests: Vec<VersionRequest>,
}

impl View for WorkGroup {
    type V = GroupView;

    open spec fn view(&self) -> GroupView {
        (self.tool_name@, reqs_view(self.requests@))
    }
}

/// The abstract values of a sequence of groups, in order.
pub open spec fn groups_view(gs: Seq<WorkGroup>) -> Seq<GroupView> {
    gs.map_values(|g: WorkGroup| g@)
}

/// The tool names of a sequence of groups, in order.
pub open spec fn group_tools(gs: Seq<GroupView>) -> Seq<Seq<char>> {
    gs.map_values(|g: GroupView| g.0)
}

/// Index of the group for tool `t`, or -1 if no group has that tool.
pub open spec fn find_group(gs: Seq<GroupView>, t: Seq<char>) -> int
    decreases gs.len(),
{
    if gs.len() == 0 {
        -1
    } else if gs[0].0 == t {
        0
    } else {
        let i = find_group(gs.drop_first(), t);
        if i == -1 {
            -1
        } else {
            i + 1
        }
    }
}

/// The requests of `rs` whose tool is `t`, in their input order.
pub open spec fn tool_requests(rs: Seq<ReqView>, t: Seq<char>) -> Seq<ReqView>
    decreases rs.len(),
{
    if rs.len() == 0 {
        Seq::empty()
    } else if rs.last().0 == t {
        tool_requests(rs.drop_last(), t).push(rs.last())
    } else {
        tool_requests(rs.drop_last(), t)
    }
}

/// The work groups of an input list: requests are grouped by tool name,
/// each tool's requests keep their relative order, and the groups stand in
/// the order the tools first appear in the input.
pub open spec fn groups_of(rs: Seq<ReqView>) -> Seq<GroupView>
    decreases rs.len(),
{
    if rs.len() == 0 {
        Seq::empty()
    } else {
        let gs = groups_of(rs.drop_last());
        let r = rs.last();
        let i = find_group(gs, r.0);
        if i == -1 {
            gs.push((r.0, seq![r]))
        } else {
            gs.update(i, (gs[i].0, gs[i].1.push(r)))
        }
    }
}

/// Total number of requests held by a sequence of groups.
pub open spec fn total_requests(gs: Seq<GroupView>) -> nat
    decreases gs.len(),
{
    if gs.len() == 0 {
        0
    } else {
        total_requests(gs.drop_last()) + gs.last().1.len()
    }
}

proof fn lemma_find_group_bounds(gs: Seq<GroupView>, t: Seq<char>)
    ensures
        find_group(gs, t) == -1 ==> forall|j: int| 0 <= j < gs.len() ==> gs[j].0 != t,
        find_group(gs, t) != -1 ==> 0 <= find_group(gs, t) < gs.len() && gs[find_group(
            gs,
            t,
        )].0 == t,
    decreases gs.len(),
{
    if gs.len() > 0 && gs[0].0 != t {
        lemma_find_group_bounds(gs.drop_first(), t);
        if find_group(gs, t) == -1 {
            assert forall|j: int| 0 <= j < gs.len() implies gs[j].0 != t by {
                if j > 0 {
                    assert(gs.drop_first()[j - 1] == gs[j]);
                }
            }
        }
    }
}

proof fn lemma_find_group_none(gs: Seq<GroupView>, t: Seq<char>)
    requires
        forall|j: int| 0 <= j < gs.len() ==> gs[j].0 != t,
    ensures
        find_group(gs, t) == -1,
    decreases gs.len(),
{
    if gs.len() > 0 {
        lemma_find_group_none(gs.drop_first(), t);
    }
}

proof fn lemma_find_group_at(gs: Seq<GroupView>, t: Seq<char>, i: int)
    requires
        0 <= i < gs.len(),
        gs[i].0 == t,
        forall|j: int| 0 <= j < i ==> gs[j].0 != t,
    ensures
        find_group(gs, t) == i,
    decreases gs.len(),
{
    if i > 0 {
        lemma_find_group_at(gs.drop_first(), t, i - 1);
    }
}

proof fn lemma_find_group_update(gs: Seq<GroupView>, t: Seq<char>, i: int, g: GroupView)
    requires
        0 <= i < gs.len(),
        g.0 == gs[i].0,
    ensures
        find_group(gs.update(i, g), t) == find_group(gs, t),
    decreases gs.len(),
{
    if i == 0 {
        assert(gs.update(0, g).drop_first() =~= gs.drop_first());
    } else {
        assert(gs.update(i, g).drop_first() =~= gs.drop_first().update(i - 1, g));
        lemma_find_group_update(gs.drop_first(), t, i - 1, g);
    }
}

proof fn lemma_find_group_push(gs: Seq<GroupView>, t: Seq<char>, g: GroupView)
    ensures
        find_group(gs, t) != -1 ==> find_group(gs.push(g), t) == find_group(gs, t),
        find_group(gs, t) == -1 && g.0 == t ==> find_group(gs.push(g), t) == gs.len(),
        find_group(gs, t) == -1 && g.0 != t ==> find_group(gs.push(g), t) == -1,
    decreases gs.len(),
{
    if gs.len() == 0 {
        reveal_with_fuel(find_group, 2);
        assert(gs.push(g)[0] == g);
        assert(gs.push(g).drop_first() =~= Seq::<GroupView>::empty());
    } else {
        assert(gs.push(g)[0] == gs[0]);
        assert(gs.push(g).drop_first() =~= gs.drop_first().push(g));
        lemma_find_group_bounds(gs.drop_first(), t);
        lemma_find_group_push(gs.drop_first(), t, g);
        if gs[0].0 != t && find_group(gs, t) == -1 {
            assert(find_group(gs.drop_first(), t) == -1);
        }
    }
}

proof fn lemma_tool_requests_tools(rs: Seq<ReqView>, t: Seq<char>)
    ensures
        forall|i: int|
            0 <= i < tool_requests(rs, t).len() ==> (#[trigger] tool_requests(rs, t)[i]).0 == t,
    decreases rs.len(),
{
    if rs.len() > 0 {
        lemma_tool_requests_tools(rs.drop_last(), t);
        let w0 = tool_requests(rs.drop_last(), t);
        assert forall|i: int| 0 <= i < tool_requests(rs, t).len() implies (#[trigger] tool_requests(
            rs,
            t,
        )[i]).0 == t by {
            if rs.last().0 == t {
                assert(tool_requests(rs, t) == w0.push(rs.last()));
                if i < w0.len() {
                    assert(tool_requests(rs, t)[i] == w0[i]);
                }
            } else {
                assert(tool_requests(rs, t) == w0);
                assert(tool_requests(rs, t)[i] == w0[i]);
            }
        }
    }
}

proof fn lemma_tool_requests_none(rs: Seq<ReqView>, t: Seq<char>)
    requires
        forall|k: int| 0 <= k < rs.len() ==> (#[trigger] rs[k]).0 != t,
    ensures
        tool_requests(rs, t) == Seq::<ReqView>::empty(),
    decreases rs.len(),
{
    if rs.len() > 0 {
        assert(rs.last() == rs[rs.len() - 1]);
        lemma_tool_requests_none(rs.drop_last(), t);
    }
}

proof fn lemma_tool_requests_contains(rs: Seq<ReqView>, t: Seq<char>, k: int)
    requires
        0 <= k < rs.len(),
        rs[k].0 == t,
    ensures
        tool_requests(rs, t).contains(rs[k]),
    decreases rs.len(),
{
    if k == rs.len() - 1 {
        let w = tool_requests(rs.drop_last(), t);
        assert(tool_requests(rs, t)[w.len() as int] == rs.last());
    } else {
        lemma_tool_requests_contains(rs.drop_last(), t, k);
        let w0 = tool_requests(rs.drop_last(), t);
        let j = choose|j: int| 0 <= j < w0.len() && w0[j] == rs.drop_last()[k];
        assert(tool_requests(rs, t)[j] == rs[k]);
    }
}

proof fn lemma_total_push(gs: Seq<GroupView>, g: GroupView)
    ensures
        total_requests(gs.push(g)) == total_requests(gs) + g.1.len(),
{
    assert(gs.push(g).drop_last() =~= gs);
    assert(gs.push(g).last() == g);
}

proof fn lemma_total_update(gs: Seq<GroupView>, i: int, g: GroupView)
    requires
        0 <= i < gs.len(),
    ensures
        total_requests(gs.update(i, g)) + gs[i].1.len() == total_requests(gs) + g.1.len(),
    decreases gs.len(),
{
    if i == gs.len() - 1 {
        assert(gs.update(i, g).drop_last() =~= gs.drop_last());
        assert(gs.update(i, g).last() == g);
    } else {
        assert(gs.update(i, g).drop_last() =~= gs.drop_last().update(i, g));
        assert(gs.update(i, g).last() == gs.last());
        lemma_total_update(gs.drop_last(), i, g);
    }
}

/// The one grouping lemma everything else draws on: how `groups_of` relates
/// to its input. Group tools are distinct, every group holds exactly its
/// tool's requests in input order, every input tool has a group, the groups
/// hold exactly as many requests as the input, and no group is empty.
pub proof fn lemma_groups_of(rs: Seq<ReqView>)
    ensures
        forall|i: int, j: int|
            0 <= i < j < groups_of(rs).len() ==> groups_of(rs)[i].0 != groups_of(rs)[j].0,
        forall|i: int|
            0 <= i < groups_of(rs).len() ==> (#[trigger] groups_of(rs)[i]).1 == tool_requests(
                rs,
                groups_of(rs)[i].0,
            ),
        forall|k: int| 0 <= k < rs.len() ==> find_group(groups_of(rs), (#[trigger] rs[k]).0) != -1,
        total_requests(groups_of(rs)) == rs.len(),
        forall|i: int| 0 <= i < groups_of(rs).len() ==> (#[trigger] groups_of(rs)[i]).1.len() > 0,
    decreases rs.len(),
{
    if rs.len() > 0 {
        let rs0 = rs.drop_last();
        let r = rs.last();
        let gs0 = groups_of(rs0);
        let gs = groups_of(rs);
        let i = find_group(gs0, r.0);
        lemma_groups_of(rs0);
        lemma_find_group_bounds(gs0, r.0);
        assert(forall|k: int| 0 <= k < rs0.len() ==> rs0[k] == rs[k]);
        if i == -1 {
            let g = (r.0, seq![r]);
            assert(gs == gs0.push(g));
            // no request of the prefix names the new tool
            assert(forall|k: int| 0 <= k < rs0.len() ==> (#[trigger] rs0[k]).0 != r.0) by {
                assert forall|k: int| 0 <= k < rs0.len() implies (#[trigger] rs0[k]).0 != r.0 by {
                    if rs0[k].0 == r.0 {
                        assert(find_group(gs0, rs0[k].0) != -1);
                    }
                }
            }
            lemma_tool_requests_none(rs0, r.0);
            assert(tool_requests(rs, r.0) =~= seq![r]);
            assert forall|j: int| 0 <= j < gs.len() implies (#[trigger] gs[j]).1 == tool_requests(
                rs,
                gs[j].0,
            ) by {
                if j < gs0.len() {
                    assert(gs[j] == gs0[j]);
                    assert(gs[j].0 != r.0);
                    assert(tool_requests(rs, gs[j].0) == tool_requests(rs0, gs[j].0));
                } else {
                    assert(gs[j] == g);
                }
            }
            assert forall|k: int| 0 <= k < rs.len() implies find_group(
                gs,
                (#[trigger] rs[k]).0,
            ) != -1 by {
                lemma_find_group_push(gs0, rs[k].0, g);
            }
            lemma_total_push(gs0, g);
        } else {
            let g = (gs0[i].0, gs0[i].1.push(r));
            assert(gs == gs0.update(i, g));
            assert(gs0[i].0 == r.0);
            assert forall|j: int| 0 <= j < gs.len() implies (#[trigger] gs[j]).1 == tool_requests(
                rs,
                gs[j].0,
            ) by {
                if j != i {
                    assert(gs[j] == gs0[j]);
                    assert(gs[j].0 != r.0);
                    assert(tool_requests(rs, gs[j].0) == tool_requests(rs0, gs[j].0));
                } else {
                    assert(tool_requests(rs, r.0) == tool_requests(rs0, r.0).push(r));
                }
            }
            assert forall|k: int| 0 <= k < rs.len() implies find_group(
                gs,
                (#[trigger] rs[k]).0,
            ) != -1 by {
                lemma_find_group_update(gs0, rs[k].0, i, g);
            }
            lemma_total_update(gs0, i, g);
        }
    }
}

/// Law: for every input list, the Work Groups partition it exactly. The
/// group tools are distinct; every request occurrence is held by the group
/// of its tool; no group holds a request of another tool; and the groups
/// together hold exactly as many requests as the input — so nothing is
/// lost and nothing is duplicated.
pub proof fn lemma_groups_partition(rs: Seq<ReqView>)
    ensures
        forall|i: int, j: int|
            0 <= i < j < groups_of(rs).len() ==> groups_of(rs)[i].0 != groups_of(rs)[j].0,
        forall|k: int|
            0 <= k < rs.len() ==> 0 <= find_group(groups_of(rs), (#[trigger] rs[k]).0)
                < groups_of(rs).len(),
        forall|k: int|
            0 <= k < rs.len() ==> groups_of(rs)[find_group(groups_of(rs), (#[trigger] rs[k]).0)].1
                .contains(rs[k]),
        forall|i: int, n: int|
            0 <= i < groups_of(rs).len() && 0 <= n < groups_of(rs)[i].1.len() ==> (
            #[trigger] groups_of(rs)[i].1[n]).0 == groups_of(rs)[i].0,
        total_requests(groups_of(rs)) == rs.len(),
{
    let gs = groups_of(rs);
    lemma_groups_of(rs);
    assert forall|k: int| 0 <= k < rs.len() implies 0 <= find_group(gs, (#[trigger] rs[k]).0)
        < gs.len() && gs[find_group(gs, rs[k].0)].1.contains(rs[k]) by {
        lemma_find_group_bounds(gs, rs[k].0);
        let gi = find_group(gs, rs[k].0);
        lemma_tool_requests_contains(rs, rs[k].0, k);
        assert(gs[gi].1 == tool_requests(rs, rs[k].0));
    }
    assert forall|i: int, n: int|
        0 <= i < gs.len() && 0 <= n < gs[i].1.len() implies (#[trigger] gs[i].1[n]).0
        == gs[i].0 by {
        lemma_tool_requests_tools(rs, gs[i].0);
    }
}

/// Law: within one tool, the relative order of its requests is preserved:
/// each group's request list is exactly the subsequence of the input that
/// names the group's tool, in input order.
pub proof fn lemma_group_order_preserved(rs: Seq<ReqView>)
    ensures
        forall|i: int|
            0 <= i < groups_of(rs).len() ==> (#[trigger] groups_of(rs)[i]).1 == tool_requests(
                rs,
                groups_of(rs)[i].0,
            ),
{
    lemma_groups_of(rs);
}

/// Law: the pre-pass plan (the group tool list) names no tool twice, so
/// `ensure_installed` runs at most once per tool of an install call.
pub proof fn lemma_prepass_tools_distinct(rs: Seq<ReqView>)
    ensures
        forall|i: int, j: int|
            0 <= i < j < group_tools(groups_of(rs)).len() ==> group_tools(groups_of(rs))[i]
                != group_tools(groups_of(rs))[j],
{
    lemma_groups_of(rs);
    let ts = group_tools(groups_of(rs));
    assert forall|i: int, j: int| 0 <= i < j < ts.len() implies ts[i] != ts[j] by {
        assert(ts[i] == groups_of(rs)[i].0);
        assert(ts[j] == groups_of(rs)[j].0);
    }
}

fn find_group_slot(groups: &Vec<WorkGroup>, tool_name: &String) -> (r: Option<usize>)
    ensures
        match r {
            Some(i) => i < groups@.len() && find_group(groups_view(groups@), tool_name@) == i as int,
            None => find_group(groups_view(groups@), tool_name@) == -1,
        },
{
    let mut j: usize = 0;
    while j < groups.len()
        invariant
            j <= groups@.len(),
            forall|j2: int| 0 <= j2 < j ==> groups_view(groups@)[j2].0 != tool_name@,
        decreases groups@.len() - j,
    {
        if groups[j].tool_name == *tool_name {
            proof {
                lemma_find_group_at(groups_view(groups@), tool_name@, j as int);
            }
            return Some(j);
        }
        assert(groups_view(groups@)[j as int].0 == groups@[j as int].tool_name@);
        j = j + 1;
    }
    proof {
        lemma_find_group_none(groups_view(groups@), tool_name@);
    }
    None
}

/// Partition the input into Work Groups: one group per distinct tool name,
/// holding that tool's requests in their input order, groups ordered by the
/// tools' first appearance in the input.
pub fn build_groups(requests: Vec<VersionRequest>) -> (groups: Vec<WorkGroup>)
    ensures
        groups_view(groups@) == groups_of(reqs_view(requests@)),
{
    let ghost rv = reqs_view(requests@);
    let mut groups: Vec<WorkGroup> = Vec::new();
    let mut rest = requests;
    let mut i: usize = 0;
    assert(groups_view(groups@) =~= groups_of(rv.subrange(0, 0)));
    while i < rest.len()
        invariant
            i <= rest@.len(),
            reqs_view(rest@) == rv,
            groups_view(groups@) == groups_of(rv.subrange(0, i as int)),
        decreases rest@.len() - i,
    {
        let r = rest[i].duplicate();
        assert(r@ == rv[i as int]);
        let ghost pre = rv.subrange(0, i as int);
        let ghost gs0 = groups_view(groups@);
        assert(rv.subrange(0, i + 1).drop_last() =~= pre);
        assert(rv.subrange(0, i + 1).last() == rv[i as int]);
        match find_group_slot(&groups, &r.tool_name) {
            Some(slot) => {
                let mut g = groups.remove(slot);
                g.requests.push(r);
                groups.insert(slot, g);
                assert(groups_view(groups@) =~= gs0.update(
                    slot as int,
                    (gs0[slot as int].0, gs0[slot as int].1.push(rv[i as int])),
                )) by {
                    lemma_find_group_bounds(gs0, rv[i as int].0);
                    assert(reqs_view(groups@[slot as int].requests@) =~= gs0[slot as int].1.push(
                        rv[i as int],
                    ));
                }
            },
            None => {
                let mut rs: Vec<VersionRequest> = Vec::new();
                rs.push(r);
                let g = WorkGroup { tool_name: rest[i].tool_name.clone(), requests: rs };
                groups.push(g);
                assert(reqs_view(groups@.last().requests@) =~= seq![rv[i as int]]);
                assert(groups_view(groups@) =~= gs0.push((rv[i as int].0, seq![rv[i as int]])));
            },
        }
        i = i + 1;
    }
    assert(rv.subrange(0, rest@.len() as int) =~= rv);
    groups
}

/// The mutex-guarded Work Queue's contents: a list of Work Groups, consumed
/// only by popping one whole group at a time from the end. The callers keep
/// it behind their own mutual-exclusion lock; this type holds the data and
/// the atomic-step semantics of a single pop.
pub struct WorkQueue {
    pub groups: Vec<WorkGroup>,
}

impl WorkQueue {
    pub fn new(groups: Vec<WorkGroup>) -> (q: Self)
        ensures
            q.groups@ == groups@,
    {
        WorkQueue { groups }
    }

    /// Atomically claim one whole group, or report the queue empty. Groups
    /// leave in reverse of their construction order; no group is ever split
    /// or pushed back.
    pub fn pop(&mut self) -> (r: Option<WorkGroup>)
        ensures
            old(self).groups@.len() == 0 ==> r is None && final(self).groups@ == old(self).groups@,
            old(self).groups@.len() > 0 ==> final(self).groups@ == old(self).groups@.drop_last()
                && r == Some(old(self).groups@.last()),
    {
        self.groups.pop()
    }
}

} // verus!
