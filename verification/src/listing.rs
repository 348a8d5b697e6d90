//! The order in which the daemon lists sessions: names compared character
//! by character is a strict total order, and the session list is strictly
//! sorted by name, so that it names each session once.

use vstd::prelude::*;

use crate::daemon::{
    add_if_absent, insert_by_name, sort_by_name, spec_list_sessions, summaries_from_containers,
    summaries_from_dirs, summaries_from_pending, container_summary, directory_summary, pending_summary,
    booted_fn, DaemonState, PendingSession, SummaryView,
};
use crate::container::ListedContainer;
use crate::mock::text_less;

verus! {

/// No name sorts before itself.
pub proof fn lemma_text_less_irreflexive(a: Seq<char>)
    ensures
        !text_less(a, a),
    decreases a.len(),
{
    if a.len() > 0 {
        lemma_text_less_irreflexive(a.drop_first());
    }
}

/// Two names do not each sort before the other.
pub proof fn lemma_text_less_asymmetric(a: Seq<char>, b: Seq<char>)
    ensures
        text_less(a, b) ==> !text_less(b, a),
    decreases a.len(),
{
    if a.len() > 0 && b.len() > 0 && a[0] == b[0] {
        lemma_text_less_asymmetric(a.drop_first(), b.drop_first());
    }
}

/// Sorting before is transitive.
pub proof fn lemma_text_less_transitive(a: Seq<char>, b: Seq<char>, c: Seq<char>)
    requires
        text_less(a, b),
        text_less(b, c),
    ensures
        text_less(a, c),
    decreases a.len(),
{
    if a.len() > 0 && a[0] == b[0] && b[0] == c[0] {
        lemma_text_less_transitive(a.drop_first(), b.drop_first(), c.drop_first());
    }
}

/// Of two different names, one sorts before the other.
pub proof fn lemma_text_less_total(a: Seq<char>, b: Seq<char>)
    requires
        a != b,
    ensures
        text_less(a, b) || text_less(b, a),
    decreases a.len(),
{
    if a.len() > 0 && b.len() > 0 {
        if a[0] == b[0] {
            if a.drop_first() == b.drop_first() {
                assert(a =~= seq![a[0]] + a.drop_first());
                assert(b =~= seq![b[0]] + b.drop_first());
            }
            lemma_text_less_total(a.drop_first(), b.drop_first());
        } else {
            let x = a[0];
            let y = b[0];
            vstd::utf8::char_u32_cast(x, x as u32);
            vstd::utf8::char_u32_cast(y, y as u32);
            assert((x as u32) != (y as u32));
        }
    } else if a.len() == 0 && b.len() == 0 {
        assert(a =~= b);
    }
}

/// Summaries whose names never decrease.
pub open spec fn sorted_by_name(s: Seq<SummaryView>) -> bool {
    forall|i: int, j: int| 0 <= i < j < s.len() ==> !text_less(#[trigger] s[j].0, #[trigger] s[i].0)
}

/// Summaries that name each session once.
pub open spec fn names_distinct(s: Seq<SummaryView>) -> bool {
    forall|i: int, j: int| 0 <= i < j < s.len() ==> #[trigger] s[i].0 != #[trigger] s[j].0
}

/// Summaries whose names strictly increase.
pub open spec fn strictly_sorted_by_name(s: Seq<SummaryView>) -> bool {
    forall|i: int, j: int| 0 <= i < j < s.len() ==> text_less(#[trigger] s[i].0, #[trigger] s[j].0)
}

proof fn lemma_insert(sorted: Seq<SummaryView>, x: SummaryView)
    requires
        sorted_by_name(sorted),
    ensures
        insert_by_name(sorted, x).len() == sorted.len() + 1,
        forall|k: int| 0 <= k < insert_by_name(sorted, x).len() ==>
            #[trigger] insert_by_name(sorted, x)[k] == x || sorted.contains(insert_by_name(sorted, x)[k]),
        sorted_by_name(insert_by_name(sorted, x)),
        names_distinct(sorted) && (forall|m: int| 0 <= m < sorted.len() ==> #[trigger] sorted[m].0 != x.0)
            ==> names_distinct(insert_by_name(sorted, x)),
    decreases sorted.len(),
{
    let r = insert_by_name(sorted, x);
    if sorted.len() == 0 {
        assert(r =~= seq![x]);
    } else {
        let last = sorted.last();
        let front = sorted.drop_last();
        assert forall|i: int, j: int| 0 <= i < j < front.len() implies !text_less(#[trigger] front[j].0, #[trigger] front[i].0) by {
            assert(front[i] == sorted[i] && front[j] == sorted[j]);
        }
        if text_less(x.0, last.0) {
            lemma_insert(front, x);
            let r0 = insert_by_name(front, x);
            assert(r == r0.push(last));
            assert forall|k: int| 0 <= k < r.len() implies #[trigger] r[k] == x || sorted.contains(r[k]) by {
                if k == r.len() - 1 {
                    assert(r[k] == sorted[sorted.len() - 1]);
                } else {
                    assert(r[k] == r0[k]);
                    if r0[k] != x {
                        let m = choose|m: int| 0 <= m < front.len() && front[m] == r0[k];
                        assert(sorted[m] == r0[k]);
                    }
                }
            }
            assert forall|i: int, j: int| 0 <= i < j < r.len() implies !text_less(#[trigger] r[j].0, #[trigger] r[i].0) by {
                if j == r.len() - 1 {
                    assert(r[i] == r0[i]);
                    if r0[i] == x {
                        lemma_text_less_asymmetric(x.0, last.0);
                    } else {
                        let m = choose|m: int| 0 <= m < front.len() && front[m] == r0[i];
                        assert(sorted[m] == r0[i]);
                        assert(!text_less(sorted[sorted.len() - 1].0, sorted[m].0));
                    }
                } else {
                    assert(r[i] == r0[i] && r[j] == r0[j]);
                }
            }
            if names_distinct(sorted) && (forall|m: int| 0 <= m < sorted.len() ==> #[trigger] sorted[m].0 != x.0) {
                assert forall|m: int| 0 <= m < front.len() implies #[trigger] front[m].0 != x.0 by {
                    assert(front[m] == sorted[m]);
                }
                assert forall|i: int, j: int| 0 <= i < j < front.len() implies #[trigger] front[i].0 != #[trigger] front[j].0 by {
                    assert(front[i] == sorted[i] && front[j] == sorted[j]);
                }
                assert forall|i: int, j: int| 0 <= i < j < r.len() implies #[trigger] r[i].0 != #[trigger] r[j].0 by {
                    if j == r.len() - 1 {
                        assert(r[i] == r0[i]);
                        assert(r[j] == sorted[sorted.len() - 1]);
                        if r0[i] == x {
                            assert(sorted[sorted.len() - 1].0 != x.0);
                        } else {
                            let m = choose|m: int| 0 <= m < front.len() && front[m] == r0[i];
                            assert(sorted[m] == r0[i]);
                            assert(sorted[m].0 != sorted[sorted.len() - 1].0);
                        }
                    } else {
                        assert(r[i] == r0[i] && r[j] == r0[j]);
                    }
                }
            }
        } else {
            assert(r == sorted.push(x));
            assert forall|k: int| 0 <= k < r.len() implies #[trigger] r[k] == x || sorted.contains(r[k]) by {
                if k < sorted.len() {
                    assert(r[k] == sorted[k]);
                }
            }
            assert forall|i: int, j: int| 0 <= i < j < r.len() implies !text_less(#[trigger] r[j].0, #[trigger] r[i].0) by {
                if j == r.len() - 1 {
                    assert(r[i] == sorted[i]);
                    if text_less(x.0, sorted[i].0) {
                        if i < sorted.len() - 1 {
                            assert(!text_less(sorted[sorted.len() - 1].0, sorted[i].0));
                            if sorted[i].0 != last.0 {
                                lemma_text_less_total(sorted[i].0, last.0);
                                lemma_text_less_transitive(x.0, sorted[i].0, last.0);
                            }
                        }
                    }
                } else {
                    assert(r[i] == sorted[i] && r[j] == sorted[j]);
                }
            }
            if names_distinct(sorted) && (forall|m: int| 0 <= m < sorted.len() ==> #[trigger] sorted[m].0 != x.0) {
                assert forall|i: int, j: int| 0 <= i < j < r.len() implies #[trigger] r[i].0 != #[trigger] r[j].0 by {
                    if j == r.len() - 1 {
                        assert(r[i] == sorted[i]);
                    } else {
                        assert(r[i] == sorted[i] && r[j] == sorted[j]);
                    }
                }
            }
        }
    }
}

proof fn lemma_sort(s: Seq<SummaryView>)
    ensures
        sort_by_name(s).len() == s.len(),
        forall|k: int| 0 <= k < sort_by_name(s).len() ==> s.contains(#[trigger] sort_by_name(s)[k]),
        sorted_by_name(sort_by_name(s)),
        names_distinct(s) ==> names_distinct(sort_by_name(s)),
    decreases s.len(),
{
    if s.len() > 0 {
        let front = s.drop_last();
        lemma_sort(front);
        let r0 = sort_by_name(front);
        lemma_insert(r0, s.last());
        let r = sort_by_name(s);
        assert forall|k: int| 0 <= k < r.len() implies s.contains(#[trigger] r[k]) by {
            if r[k] == s.last() {
                assert(s[s.len() - 1] == r[k]);
            } else {
                let m = choose|m: int| 0 <= m < r0.len() && r0[m] == r[k];
                assert(front.contains(r0[m]));
                let n = choose|n: int| 0 <= n < front.len() && front[n] == r0[m];
                assert(s[n] == r[k]);
            }
        }
        if names_distinct(s) {
            assert forall|i: int, j: int| 0 <= i < j < front.len() implies #[trigger] front[i].0 != #[trigger] front[j].0 by {
                assert(front[i] == s[i] && front[j] == s[j]);
            }
            assert forall|m: int| 0 <= m < r0.len() implies #[trigger] r0[m].0 != s.last().0 by {
                assert(front.contains(r0[m]));
                let n = choose|n: int| 0 <= n < front.len() && front[n] == r0[m];
                assert(s[n] == r0[m]);
            }
        }
    } else {
        assert(sort_by_name(s) =~= Seq::<SummaryView>::empty());
    }
}

proof fn lemma_add_if_absent(acc: Seq<SummaryView>, x: SummaryView)
    requires
        names_distinct(acc),
    ensures
        names_distinct(add_if_absent(acc, x)),
{
    if !(exists|i: int| 0 <= i < acc.len() && #[trigger] acc[i].0 == x.0) {
        let r = acc.push(x);
        assert forall|i: int, j: int| 0 <= i < j < r.len() implies #[trigger] r[i].0 != #[trigger] r[j].0 by {
            assert(r[i] == acc[i]);
            if j < acc.len() {
                assert(r[j] == acc[j]);
            }
        }
    }
}

proof fn lemma_from_containers(acc: Seq<SummaryView>, cs: Seq<ListedContainer>, booted: spec_fn(Seq<char>) -> bool, filter: Option<Seq<char>>)
    requires
        names_distinct(acc),
    ensures
        names_distinct(summaries_from_containers(acc, cs, booted, filter)),
    decreases cs.len(),
{
    if cs.len() > 0 {
        lemma_from_containers(acc, cs.drop_last(), booted, filter);
        let before = summaries_from_containers(acc, cs.drop_last(), booted, filter);
        let c = cs.last();
        match crate::daemon::label_of(c, crate::daemon::LABEL_SESSION@) {
            Some(name) => lemma_add_if_absent(before, container_summary(c, name, booted(name))),
            None => {},
        }
    }
}

proof fn lemma_from_pending(acc: Seq<SummaryView>, ps: Seq<(String, PendingSession)>, filter: Option<Seq<char>>)
    requires
        names_distinct(acc),
    ensures
        names_distinct(summaries_from_pending(acc, ps, filter)),
    decreases ps.len(),
{
    if ps.len() > 0 {
        lemma_from_pending(acc, ps.drop_last(), filter);
        let before = summaries_from_pending(acc, ps.drop_last(), filter);
        lemma_add_if_absent(before, pending_summary(ps.last().0@, ps.last().1));
    }
}

proof fn lemma_from_dirs(acc: Seq<SummaryView>, dirs: Seq<String>)
    requires
        names_distinct(acc),
    ensures
        names_distinct(summaries_from_dirs(acc, dirs)),
    decreases dirs.len(),
{
    if dirs.len() > 0 {
        lemma_from_dirs(acc, dirs.drop_last());
        lemma_add_if_absent(summaries_from_dirs(acc, dirs.drop_last()), directory_summary(dirs.last()@));
    }
}

/// Every summary of `s` belongs to profile `f`.
pub open spec fn all_of_profile(s: Seq<SummaryView>, f: Seq<char>) -> bool {
    forall|i: int| 0 <= i < s.len() ==> (#[trigger] s[i]).1 == Some(f)
}

proof fn lemma_add_if_absent_profile(acc: Seq<SummaryView>, x: SummaryView, f: Seq<char>)
    requires
        all_of_profile(acc, f),
        x.1 == Some(f),
    ensures
        all_of_profile(add_if_absent(acc, x), f),
{
    let r = add_if_absent(acc, x);
    assert forall|i: int| 0 <= i < r.len() implies (#[trigger] r[i]).1 == Some(f) by {
        if i < acc.len() {
            assert(r[i] == acc[i]);
        }
    }
}

proof fn lemma_containers_profile(acc: Seq<SummaryView>, cs: Seq<ListedContainer>, booted: spec_fn(Seq<char>) -> bool, f: Seq<char>)
    requires
        all_of_profile(acc, f),
    ensures
        all_of_profile(summaries_from_containers(acc, cs, booted, Some(f)), f),
    decreases cs.len(),
{
    if cs.len() > 0 {
        lemma_containers_profile(acc, cs.drop_last(), booted, f);
        let before = summaries_from_containers(acc, cs.drop_last(), booted, Some(f));
        let c = cs.last();
        match crate::daemon::label_of(c, crate::daemon::LABEL_SESSION@) {
            Some(name) => {
                if crate::daemon::label_of(c, crate::daemon::LABEL_PROFILE@) == Some(f) {
                    lemma_add_if_absent_profile(before, container_summary(c, name, booted(name)), f);
                }
            },
            None => {},
        }
    }
}

proof fn lemma_pending_profile(acc: Seq<SummaryView>, ps: Seq<(String, PendingSession)>, f: Seq<char>)
    requires
        all_of_profile(acc, f),
    ensures
        all_of_profile(summaries_from_pending(acc, ps, Some(f)), f),
    decreases ps.len(),
{
    if ps.len() > 0 {
        lemma_pending_profile(acc, ps.drop_last(), f);
        let before = summaries_from_pending(acc, ps.drop_last(), Some(f));
        let (name, p) = ps.last();
        if p.profile@ == f {
            lemma_add_if_absent_profile(before, pending_summary(name@, p), f);
        }
    }
}

/// With a profile filter, every listed session belongs to that profile:
/// running, booting and stale sessions of other profiles are left out.
pub proof fn lemma_list_sessions_filter(
    containers: Seq<ListedContainer>,
    state: DaemonState,
    dirs: Seq<String>,
    f: Seq<char>,
)
    ensures
        forall|i: int| 0 <= i < spec_list_sessions(containers, state, dirs, Some(f)).len()
            ==> (#[trigger] spec_list_sessions(containers, state, dirs, Some(f))[i]).1 == Some(f),
{
    let a = summaries_from_containers(seq![], containers, booted_fn(state), Some(f));
    let b = summaries_from_pending(a, state.pending_list(), Some(f));
    lemma_containers_profile(seq![], containers, booted_fn(state), f);
    lemma_pending_profile(a, state.pending_list(), f);
    lemma_sort(b);
    let r = sort_by_name(b);
    assert(r == spec_list_sessions(containers, state, dirs, Some(f)));
    assert forall|i: int| 0 <= i < r.len() implies (#[trigger] r[i]).1 == Some(f) by {
        assert(b.contains(r[i]));
        let m = choose|m: int| 0 <= m < b.len() && b[m] == r[i];
        assert(b[m].1 == Some(f));
    }
}

/// The sessions the daemon lists are strictly sorted by name, so each
/// session is listed once.
pub proof fn lemma_list_sessions_sorted(
    containers: Seq<ListedContainer>,
    state: DaemonState,
    dirs: Seq<String>,
    filter: Option<Seq<char>>,
)
    ensures
        strictly_sorted_by_name(spec_list_sessions(containers, state, dirs, filter)),
        names_distinct(spec_list_sessions(containers, state, dirs, filter)),
{
    let a = summaries_from_containers(seq![], containers, booted_fn(state), filter);
    let b = summaries_from_pending(a, state.pending_list(), filter);
    let c = if filter is None { summaries_from_dirs(b, dirs) } else { b };
    lemma_from_containers(seq![], containers, booted_fn(state), filter);
    lemma_from_pending(a, state.pending_list(), filter);
    if filter is None {
        lemma_from_dirs(b, dirs);
    }
    lemma_sort(c);
    let r = sort_by_name(c);
    assert(r == spec_list_sessions(containers, state, dirs, filter));
    assert forall|i: int, j: int| 0 <= i < j < r.len() implies text_less(#[trigger] r[i].0, #[trigger] r[j].0) by {
        lemma_text_less_total(r[i].0, r[j].0);
    }
}

} // verus!
