//! The workflow's guarantees, proved over whole runs of the machine.
//!
//! A run is a start state and the sequence of events the driver feeds in;
//! [`run_states`] lists every state passed through and [`run_actions`] every
//! action the machine asks for along the way. The proof functions here pin
//! down the workflow's contract: a matching marker makes the whole run a
//! no-op, the marker write is the unique commit point and comes after every
//! upload, a missing marker behaves exactly like a stale one, a failed run
//! commits nothing, a retry re-plans the identical publish, and only
//! allow-listed images are ever downloaded.

use vstd::prelude::*;

use crate::content::LatestView;
use crate::orchestrator::{
    action_of, allowed_src, gallery_jobs, marker_value, phase_transition, publish_jobs, src_values,
    transition, ActionView, EventView, JobView, MarkerView, Outcome, OrchView, PhaseView,
};
use crate::scrape::img_srcs_of;

verus! {

/// Every state a run passes through: the start state, then one more state
/// per event fed in.
pub open spec fn run_states(o: OrchView, evs: Seq<EventView>) -> Seq<OrchView>
    decreases evs.len(),
{
    if evs.len() == 0 {
        seq![o]
    } else {
        seq![o] + run_states(transition(o, evs[0]), evs.drop_first())
    }
}

/// The state a run ends in.
pub open spec fn final_state(o: OrchView, evs: Seq<EventView>) -> OrchView {
    run_states(o, evs).last()
}

/// The actions the driver is asked to perform along a run, one per state.
pub open spec fn run_actions(o: OrchView, evs: Seq<EventView>) -> Seq<ActionView> {
    run_states(o, evs).map_values(|s: OrchView| action_of(s))
}

/// The shape of a run: one state per event plus the start state, each state
/// after the first obtained from its predecessor by [`transition`].
pub proof fn lemma_run_states_shape(o: OrchView, evs: Seq<EventView>)
    ensures
        run_states(o, evs).len() == evs.len() + 1,
        run_states(o, evs)[0] == o,
        forall|i: int|
            0 <= i < evs.len() ==> #[trigger] run_states(o, evs)[i + 1] == transition(
                run_states(o, evs)[i],
                evs[i],
            ),
    decreases evs.len(),
{
    if evs.len() > 0 {
        let o1 = transition(o, evs[0]);
        let rest = evs.drop_first();
        lemma_run_states_shape(o1, rest);
        let s = run_states(o, evs);
        let s1 = run_states(o1, rest);
        assert forall|i: int| 0 <= i < evs.len() implies #[trigger] s[i + 1] == transition(
            s[i],
            evs[i],
        ) by {
            if i == 0 {
                assert(s[1] == s1[0]);
            } else {
                assert(s[i + 1] == s1[i]);
                assert(s[i] == s1[i - 1]);
                assert(rest[i - 1] == evs[i]);
                assert(s1[(i - 1) + 1] == transition(s1[i - 1], rest[i - 1]));
            }
        }
    }
}

/// A run never touches the run's inputs: every state carries the start
/// state's configuration, templates and nonce.
pub proof fn lemma_run_inputs_fixed(o: OrchView, evs: Seq<EventView>)
    ensures
        forall|i: int|
            0 <= i < run_states(o, evs).len() ==> {
                let s = #[trigger] run_states(o, evs)[i];
                s.config == o.config && s.top == o.top && s.bottom == o.bottom && s.nonce
                    == o.nonce
            },
{
    lemma_run_states_shape(o, evs);
    assert forall|i: int| 0 <= i < run_states(o, evs).len() implies {
        let s = #[trigger] run_states(o, evs)[i];
        s.config == o.config && s.top == o.top && s.bottom == o.bottom && s.nonce == o.nonce
    } by {
        lemma_inputs_fixed_at(o, evs, i);
    }
}

proof fn lemma_inputs_fixed_at(o: OrchView, evs: Seq<EventView>, i: int)
    requires
        0 <= i < run_states(o, evs).len(),
    ensures
        run_states(o, evs)[i].config == o.config,
        run_states(o, evs)[i].top == o.top,
        run_states(o, evs)[i].bottom == o.bottom,
        run_states(o, evs)[i].nonce == o.nonce,
    decreases i,
{
    lemma_run_states_shape(o, evs);
    if i > 0 {
        lemma_inputs_fixed_at(o, evs, i - 1);
        assert(run_states(o, evs)[(i - 1) + 1] == transition(
            run_states(o, evs)[i - 1],
            evs[i - 1],
        ));
    }
}

/// A finished run stays finished, with the same outcome.
pub proof fn lemma_done_absorbs(o: OrchView, evs: Seq<EventView>, i: int, out: Outcome)
    requires
        0 <= i < run_states(o, evs).len(),
        run_states(o, evs)[i].phase == PhaseView::Done(out),
    ensures
        forall|j: int|
            i <= j < run_states(o, evs).len() ==> #[trigger] run_states(o, evs)[j].phase
                == PhaseView::Done(out),
{
    assert forall|j: int| i <= j < run_states(o, evs).len() implies #[trigger] run_states(
        o,
        evs,
    )[j].phase == PhaseView::Done(out) by {
        lemma_done_at(o, evs, i, j, out);
    }
}

proof fn lemma_done_at(o: OrchView, evs: Seq<EventView>, i: int, j: int, out: Outcome)
    requires
        0 <= i <= j < run_states(o, evs).len(),
        run_states(o, evs)[i].phase == PhaseView::Done(out),
    ensures
        run_states(o, evs)[j].phase == PhaseView::Done(out),
    decreases j - i,
{
    lemma_run_states_shape(o, evs);
    if j > i {
        lemma_done_at(o, evs, i, j - 1, out);
        assert(run_states(o, evs)[(j - 1) + 1] == transition(
            run_states(o, evs)[j - 1],
            evs[j - 1],
        ));
    }
}

/// How far along the workflow a phase stands; transitions never go back.
pub open spec fn rank(p: PhaseView) -> int {
    match p {
        PhaseView::Start => 0,
        PhaseView::AwaitDetail { .. } => 1,
        PhaseView::AwaitMarker { .. } => 2,
        PhaseView::AwaitArchive { .. } => 3,
        PhaseView::Work { .. } => 4,
        PhaseView::AwaitInvalidation { .. } => 5,
        PhaseView::Commit { .. } => 6,
        PhaseView::Done(_) => 7,
    }
}

/// One step never lowers the rank, and always leaves the commit phase.
pub proof fn lemma_step_rank(o: OrchView, ev: EventView)
    ensures
        rank(phase_transition(o, ev)) >= rank(o.phase),
        o.phase is Commit ==> phase_transition(o, ev) is Done,
{
}

/// Across a run, the rank never decreases.
pub proof fn lemma_rank_monotone(o: OrchView, evs: Seq<EventView>)
    ensures
        forall|i: int, j: int|
            0 <= i <= j < run_states(o, evs).len() ==> rank(
                #[trigger] run_states(o, evs)[i].phase,
            ) <= rank(#[trigger] run_states(o, evs)[j].phase),
{
    assert forall|i: int, j: int| 0 <= i <= j < run_states(o, evs).len() implies rank(
        #[trigger] run_states(o, evs)[i].phase,
    ) <= rank(#[trigger] run_states(o, evs)[j].phase) by {
        lemma_rank_at(o, evs, i, j);
    }
}

proof fn lemma_rank_at(o: OrchView, evs: Seq<EventView>, i: int, j: int)
    requires
        0 <= i <= j < run_states(o, evs).len(),
    ensures
        rank(run_states(o, evs)[i].phase) <= rank(run_states(o, evs)[j].phase),
    decreases j - i,
{
    lemma_run_states_shape(o, evs);
    if j > i {
        lemma_rank_at(o, evs, i, j - 1);
        assert(run_states(o, evs)[(j - 1) + 1] == transition(
            run_states(o, evs)[j - 1],
            evs[j - 1],
        ));
        lemma_step_rank(run_states(o, evs)[j - 1], evs[j - 1]);
    }
}

/// Idempotence. When the stored marker already names the newest campaign,
/// the run is decided at once: the machine reports the skip and, whatever
/// events follow, never asks for an upload, a download, an invalidation or
/// a marker write.
pub proof fn lemma_skip_is_noop(
    o: OrchView,
    l: LatestView,
    m: MarkerView,
    evs: Seq<EventView>,
)
    requires
        o.phase == (PhaseView::AwaitMarker { latest: l }),
        marker_value(m) == l.link,
    ensures
        final_state(o, seq![EventView::Marker(m)] + evs).phase == PhaseView::Done(
            Outcome::Skipped,
        ),
        forall|i: int|
            0 <= i < run_actions(o, seq![EventView::Marker(m)] + evs).len() ==> {
                let a = #[trigger] run_actions(o, seq![EventView::Marker(m)] + evs)[i];
                !(a is Upload) && !(a is Download) && !(a is Invalidate) && !(a is WriteMarker)
            },
{
    let evs0 = seq![EventView::Marker(m)] + evs;
    lemma_run_states_shape(o, evs0);
    let s = run_states(o, evs0);
    assert(evs0[0] == EventView::Marker(m));
    assert(s[0int + 1] == transition(s[0int], evs0[0]));
    assert(s[1].phase == PhaseView::Done(Outcome::Skipped));
    lemma_done_absorbs(o, evs0, 1, Outcome::Skipped);
    assert(s.last() == s[s.len() - 1]);
    assert forall|i: int| 0 <= i < run_actions(o, evs0).len() implies {
        let a = #[trigger] run_actions(o, evs0)[i];
        !(a is Upload) && !(a is Download) && !(a is Invalidate) && !(a is WriteMarker)
    } by {
        assert(run_actions(o, evs0)[i] == action_of(s[i]));
        if i == 0 {
            assert(action_of(s[0]) == ActionView::ReadMarker);
        } else {
            assert(s[i].phase == PhaseView::Done(Outcome::Skipped));
        }
    }
}

/// First-run behavior. A marker that was never written reads as the empty
/// string, so — as long as the campaign link is not itself empty — the
/// machine moves on exactly as it would for any stored marker that differs
/// from the link: the two runs are the same state, step for step.
pub proof fn lemma_first_run_publishes(o: OrchView, l: LatestView, stored: Seq<char>)
    requires
        o.phase == (PhaseView::AwaitMarker { latest: l }),
        l.link.len() > 0,
        stored != l.link,
    ensures
        transition(o, EventView::Marker(MarkerView::NotFound)) == transition(
            o,
            EventView::Marker(MarkerView::Found(stored)),
        ),
        transition(o, EventView::Marker(MarkerView::NotFound)).phase == (PhaseView::AwaitArchive {
            latest: l,
        }),
{
    assert(marker_value(MarkerView::NotFound) == Seq::<char>::empty());
    assert(marker_value(MarkerView::NotFound) != l.link);
}

/// A stale — or missing — marker always enters the publish path, carrying
/// the campaign along.
pub proof fn lemma_stale_marker_publishes(o: OrchView, l: LatestView, m: MarkerView)
    requires
        o.phase == (PhaseView::AwaitMarker { latest: l }),
        marker_value(m) != l.link,
    ensures
        transition(o, EventView::Marker(m)).phase == (PhaseView::AwaitArchive { latest: l }),
{
}

/// The link a phase is working towards, once the campaign is known.
pub open spec fn link_of(p: PhaseView) -> Option<Seq<char>> {
    match p {
        PhaseView::AwaitDetail { link } => Some(link),
        PhaseView::AwaitMarker { latest } => Some(latest.link),
        PhaseView::AwaitArchive { latest } => Some(latest.link),
        PhaseView::Work { link, .. } => Some(link),
        PhaseView::AwaitInvalidation { link } => Some(link),
        PhaseView::Commit { link } => Some(link),
        _ => None,
    }
}

proof fn lemma_step_link(s: OrchView, ev: EventView)
    ensures
        !(phase_transition(s, ev) is Done) && link_of(s.phase) is Some ==> link_of(
            phase_transition(s, ev),
        ) == link_of(s.phase),
{
}

proof fn lemma_link_at(o: OrchView, evs: Seq<EventView>, j: int)
    requires
        link_of(o.phase) is Some,
        0 <= j < run_states(o, evs).len(),
        !(run_states(o, evs)[j].phase is Done),
    ensures
        link_of(run_states(o, evs)[j].phase) == link_of(o.phase),
    decreases j,
{
    lemma_run_states_shape(o, evs);
    if j > 0 {
        let s = run_states(o, evs);
        match s[j - 1].phase {
            PhaseView::Done(out) => {
                lemma_done_at(o, evs, j - 1, j, out);
                assert(false);
            },
            _ => {},
        }
        lemma_link_at(o, evs, j - 1);
        assert(s[(j - 1) + 1] == transition(s[j - 1], evs[j - 1]));
        lemma_step_link(s[j - 1], evs[j - 1]);
    }
}

/// What each action says about the phase it was asked from.
proof fn lemma_action_classify(s: OrchView)
    ensures
        action_of(s) is WriteMarker ==> s.phase is Commit,
        action_of(s) is Upload ==> s.phase is Work,
        action_of(s) is Download ==> s.phase is Work,
        s.phase matches PhaseView::Commit { link } ==> action_of(s) == ActionView::WriteMarker(
            link,
        ),
{
}

/// Only a commit step can finish a run as published.
proof fn lemma_published_from_commit(s: OrchView, ev: EventView)
    requires
        !(s.phase is Done),
        phase_transition(s, ev) == PhaseView::Done(Outcome::Published),
    ensures
        s.phase is Commit,
        ev is Succeeded,
{
}

proof fn lemma_first_done_boundary(o: OrchView, evs: Seq<EventView>, i: int, j: int)
    requires
        0 <= i <= j < run_states(o, evs).len(),
        !(run_states(o, evs)[i].phase is Done),
        run_states(o, evs)[j].phase is Done,
    ensures
        exists|k: int|
            #![trigger run_states(o, evs)[k]]
            i <= k < j && !(run_states(o, evs)[k].phase is Done) && run_states(o, evs)[k
                + 1].phase is Done,
    decreases j - i,
{
    if run_states(o, evs)[j - 1].phase is Done {
        lemma_first_done_boundary(o, evs, i, j - 1);
    } else {
        assert(i <= j - 1 < j && !(run_states(o, evs)[j - 1].phase is Done) && run_states(
            o,
            evs,
        )[(j - 1) + 1].phase is Done);
    }
}

/// Monotonic marker advance. A run from the marker decision that ends as
/// published asks for exactly one marker write; it writes the newest
/// campaign's link, and it comes strictly after every upload and download.
pub proof fn lemma_commit_is_last(o: OrchView, l: LatestView, evs: Seq<EventView>)
    requires
        o.phase == (PhaseView::AwaitMarker { latest: l }),
        final_state(o, evs).phase == PhaseView::Done(Outcome::Published),
    ensures
        exists|c: int|
            #![auto]
            {
                &&& 0 <= c < run_actions(o, evs).len()
                &&& run_actions(o, evs)[c] == ActionView::WriteMarker(l.link)
                &&& forall|j: int|
                    0 <= j < run_actions(o, evs).len() && j != c ==> !((#[trigger] run_actions(
                        o,
                        evs,
                    )[j]) is WriteMarker)
                &&& forall|j: int|
                    0 <= j < run_actions(o, evs).len() && ((#[trigger] run_actions(o, evs)[j])
                        is Upload || run_actions(o, evs)[j] is Download) ==> j < c
            },
{
    lemma_run_states_shape(o, evs);
    lemma_rank_monotone(o, evs);
    let s = run_states(o, evs);
    let n = s.len();
    assert(final_state(o, evs) == s[n - 1]);
    assert(!(s[0].phase is Done));
    lemma_first_done_boundary(o, evs, 0, n - 1);
    let k = choose|k: int|
        #![trigger run_states(o, evs)[k]]
        0 <= k < n - 1 && !(run_states(o, evs)[k].phase is Done) && run_states(o, evs)[k
            + 1].phase is Done;
    assert(s[k + 1] == transition(s[k], evs[k]));
    match s[k + 1].phase {
        PhaseView::Done(out) => {
            lemma_done_at(o, evs, k + 1, n - 1, out);
            assert(out == Outcome::Published);
        },
        _ => {
            assert(false);
        },
    }
    lemma_published_from_commit(s[k], evs[k]);
    lemma_link_at(o, evs, k);
    assert(link_of(s[k].phase) == Some(l.link));
    lemma_action_classify(s[k]);
    assert(run_actions(o, evs)[k] == action_of(s[k]));
    assert(run_actions(o, evs)[k] == ActionView::WriteMarker(l.link));
    assert forall|j: int| 0 <= j < run_actions(o, evs).len() && j != k implies !((
    #[trigger] run_actions(o, evs)[j]) is WriteMarker) by {
        if run_actions(o, evs)[j] is WriteMarker {
            lemma_action_classify(s[j]);
            assert(s[j].phase is Commit);
            if j < k {
                lemma_step_rank(s[j], evs[j]);
                assert(s[j + 1] == transition(s[j], evs[j]));
                assert(rank(s[j + 1].phase) == 7);
                assert(rank(s[k].phase) >= 7);
            } else {
                assert(rank(s[j].phase) >= rank(s[k + 1].phase));
            }
        }
    }
    assert forall|j: int|
        0 <= j < run_actions(o, evs).len() && ((#[trigger] run_actions(o, evs)[j]) is Upload
            || run_actions(o, evs)[j] is Download) implies j < k by {
        lemma_action_classify(s[j]);
        assert(s[j].phase is Work);
        if j >= k {
            assert(rank(s[j].phase) >= rank(s[k].phase));
        }
    }
    assert(0 <= k < run_actions(o, evs).len() && run_actions(o, evs)[k]
        == ActionView::WriteMarker(l.link) && (forall|j: int|
        0 <= j < run_actions(o, evs).len() && j != k ==> !((#[trigger] run_actions(o, evs)[j])
            is WriteMarker)) && (forall|j: int|
        0 <= j < run_actions(o, evs).len() && ((#[trigger] run_actions(o, evs)[j]) is Upload
            || run_actions(o, evs)[j] is Download) ==> j < k));
}

/// Crash before commit. A run that does not end as published never sees a
/// marker write go through: at no point does the machine ask for the write
/// and hear back that it succeeded. The marker is therefore left unchanged,
/// and the next run faces the same decision again.
pub proof fn lemma_no_commit_without_publish(o: OrchView, evs: Seq<EventView>)
    requires
        final_state(o, evs).phase != PhaseView::Done(Outcome::Published),
    ensures
        forall|i: int|
            0 <= i < evs.len() ==> !((#[trigger] run_actions(o, evs)[i]) is WriteMarker
                && evs[i] is Succeeded),
{
    lemma_run_states_shape(o, evs);
    let s = run_states(o, evs);
    assert forall|i: int| 0 <= i < evs.len() implies !((#[trigger] run_actions(o, evs)[i])
        is WriteMarker && evs[i] is Succeeded) by {
        if run_actions(o, evs)[i] is WriteMarker && evs[i] is Succeeded {
            lemma_action_classify(s[i]);
            assert(s[i].phase is Commit);
            assert(s[i + 1] == transition(s[i], evs[i]));
            assert(s[i + 1].phase == PhaseView::Done(Outcome::Published));
            lemma_done_at(o, evs, i + 1, s.len() - 1, Outcome::Published);
        }
    }
}

/// Retry determinism. The publish plan depends only on the campaign, the
/// templates and the configuration: a second machine started over the same
/// inputs and fed the same events passes through the same phases and asks
/// for the same steps — only the invalidation's run-unique nonce may
/// differ.
pub proof fn lemma_retry_same_plan(o1: OrchView, o2: OrchView, evs: Seq<EventView>)
    requires
        o1.phase == o2.phase,
        o1.config == o2.config,
        o1.top == o2.top,
        o1.bottom == o2.bottom,
    ensures
        forall|i: int|
            0 <= i < run_states(o1, evs).len() ==> #[trigger] run_states(o1, evs)[i].phase
                == run_states(o2, evs)[i].phase,
        forall|i: int|
            0 <= i < run_actions(o1, evs).len() ==> (#[trigger] run_actions(o1, evs)[i]
                == run_actions(o2, evs)[i]) || (run_actions(o1, evs)[i] is Invalidate
                && run_actions(o2, evs)[i] is Invalidate),
{
    lemma_run_states_shape(o1, evs);
    lemma_run_states_shape(o2, evs);
    lemma_run_inputs_fixed(o1, evs);
    lemma_run_inputs_fixed(o2, evs);
    assert forall|i: int| 0 <= i < run_states(o1, evs).len() implies #[trigger] run_states(
        o1,
        evs,
    )[i].phase == run_states(o2, evs)[i].phase by {
        lemma_same_phase_at(o1, o2, evs, i);
    }
    assert forall|i: int| 0 <= i < run_actions(o1, evs).len() implies (#[trigger] run_actions(
        o1,
        evs,
    )[i] == run_actions(o2, evs)[i]) || (run_actions(o1, evs)[i] is Invalidate && run_actions(
        o2,
        evs,
    )[i] is Invalidate) by {
        lemma_same_phase_at(o1, o2, evs, i);
        let s1 = run_states(o1, evs)[i];
        let s2 = run_states(o2, evs)[i];
        assert(run_actions(o1, evs)[i] == action_of(s1));
        assert(run_actions(o2, evs)[i] == action_of(s2));
    }
}

proof fn lemma_same_phase_at(o1: OrchView, o2: OrchView, evs: Seq<EventView>, i: int)
    requires
        o1.phase == o2.phase,
        o1.top == o2.top,
        o1.bottom == o2.bottom,
        0 <= i < run_states(o1, evs).len(),
    ensures
        run_states(o1, evs)[i].phase == run_states(o2, evs)[i].phase,
    decreases i,
{
    lemma_run_states_shape(o1, evs);
    lemma_run_states_shape(o2, evs);
    lemma_run_inputs_fixed(o1, evs);
    lemma_run_inputs_fixed(o2, evs);
    if i > 0 {
        lemma_same_phase_at(o1, o2, evs, i - 1);
        assert(run_states(o1, evs)[(i - 1) + 1] == transition(
            run_states(o1, evs)[i - 1],
            evs[i - 1],
        ));
        assert(run_states(o2, evs)[(i - 1) + 1] == transition(
            run_states(o2, evs)[i - 1],
            evs[i - 1],
        ));
    }
}

proof fn lemma_filter_all<A>(s: Seq<A>, pred: spec_fn(A) -> bool)
    requires
        forall|i: int| 0 <= i < s.len() ==> pred(#[trigger] s[i]),
    ensures
        s.filter(pred) == s,
    decreases s.len(),
{
    reveal(Seq::filter);
    if s.len() > 0 {
        lemma_filter_all(s.drop_last(), pred);
        assert(s.drop_last().push(s.last()) =~= s);
    }
}

proof fn lemma_filter_none<A>(s: Seq<A>, pred: spec_fn(A) -> bool)
    requires
        forall|i: int| 0 <= i < s.len() ==> !pred(#[trigger] s[i]),
    ensures
        s.filter(pred) == Seq::<A>::empty(),
    decreases s.len(),
{
    reveal(Seq::filter);
    if s.len() > 0 {
        lemma_filter_none(s.drop_last(), pred);
    }
}

/// Allow-list filtering, at the plan. The downloads in a publish queue are
/// exactly the campaign body's allow-listed image references, in document
/// order: every queued download is allow-listed, and every allow-listed
/// reference is queued.
pub proof fn lemma_publish_jobs_allow_list(
    top: Seq<char>,
    bottom: Seq<char>,
    l: LatestView,
    archive_html: Seq<char>,
)
    ensures
        publish_jobs(top, bottom, l, archive_html).filter(|j: JobView| j is Get) == gallery_jobs(
            l.html,
        ),
        forall|j: int|
            0 <= j < publish_jobs(top, bottom, l, archive_html).len() && (
            #[trigger] publish_jobs(top, bottom, l, archive_html)[j]) is Get ==> allowed_src(
                publish_jobs(top, bottom, l, archive_html)[j]->Get_0,
            ),
        forall|srcv: Seq<char>|
            src_values(img_srcs_of(l.html)).contains(srcv) && allowed_src(srcv)
                ==> #[trigger] publish_jobs(top, bottom, l, archive_html).contains(
                JobView::Get(srcv),
            ),
{
    let jobs = publish_jobs(top, bottom, l, archive_html);
    let pages = jobs.take(2);
    let gallery = gallery_jobs(l.html);
    let filtered = src_values(img_srcs_of(l.html)).filter(|srcv: Seq<char>| allowed_src(srcv));
    let is_get = |j: JobView| j is Get;
    assert(jobs =~= pages + gallery);
    Seq::filter_distributes_over_add(pages, gallery, is_get);
    lemma_filter_none(pages, is_get);
    assert forall|j: int| 0 <= j < gallery.len() implies is_get(#[trigger] gallery[j])
        && allowed_src(gallery[j]->Get_0) by {
        assert(gallery[j] == JobView::Get(filtered[j]));
        Seq::lemma_filter_pred(
            src_values(img_srcs_of(l.html)),
            |srcv: Seq<char>| allowed_src(srcv),
            j,
        );
    }
    lemma_filter_all(gallery, is_get);
    assert(jobs.filter(is_get) =~= gallery);
    assert forall|j: int| 0 <= j < jobs.len() && (#[trigger] jobs[j]) is Get implies allowed_src(
        jobs[j]->Get_0,
    ) by {
        assert(jobs[j] == gallery[j - 2]);
    }
    assert forall|srcv: Seq<char>|
        src_values(img_srcs_of(l.html)).contains(srcv) && allowed_src(
            srcv,
        ) implies #[trigger] jobs.contains(JobView::Get(srcv)) by {
        let vals = src_values(img_srcs_of(l.html));
        let w = choose|w: int| 0 <= w < vals.len() && vals[w] == srcv;
        Seq::lemma_filter_contains(vals, |sv: Seq<char>| allowed_src(sv), w);
        let w2 = choose|w2: int| 0 <= w2 < filtered.len() && filtered[w2] == srcv;
        assert(gallery[w2] == JobView::Get(srcv));
        assert(jobs[2 + w2] == JobView::Get(srcv));
    }
}

/// In a working phase, every queued download is allow-listed.
pub open spec fn work_gets_allowed(p: PhaseView) -> bool {
    match p {
        PhaseView::Work { jobs, .. } => forall|j: int|
            0 <= j < jobs.len() && (#[trigger] jobs[j]) is Get ==> allowed_src(jobs[j]->Get_0),
        _ => true,
    }
}

proof fn lemma_step_gets_allowed(s: OrchView, ev: EventView)
    requires
        work_gets_allowed(s.phase),
    ensures
        work_gets_allowed(phase_transition(s, ev)),
{
    match (s.phase, ev) {
        (PhaseView::AwaitArchive { latest }, EventView::ArchiveHtml(h)) => {
            match crate::scrape::archive_list_of(h) {
                Some(a) => {
                    lemma_publish_jobs_allow_list(s.top, s.bottom, latest, a);
                },
                None => {},
            }
        },
        (PhaseView::Work { link, jobs }, EventView::Downloaded(bytes)) => {
            if jobs.len() > 0 && jobs[0] is Get {
                let jobs2 = seq![
                    JobView::Put(
                        crate::content::image_put_view(jobs[0]->Get_0, bytes),
                    ),
                ] + jobs.drop_first();
                assert forall|j: int| 0 <= j < jobs2.len() && (#[trigger] jobs2[j])
                    is Get implies allowed_src(jobs2[j]->Get_0) by {
                    assert(jobs2[j] == jobs[j]);
                }
            }
        },
        (PhaseView::Work { link, jobs }, EventView::Succeeded) => {
            if jobs.len() > 1 && jobs[0] is Put {
                let jobs2 = jobs.drop_first();
                assert forall|j: int| 0 <= j < jobs2.len() && (#[trigger] jobs2[j])
                    is Get implies allowed_src(jobs2[j]->Get_0) by {
                    assert(jobs2[j] == jobs[j + 1]);
                }
            }
        },
        _ => {},
    }
}

/// Allow-list filtering, over a whole run: every download the machine ever
/// requests names an allow-listed image reference.
pub proof fn lemma_run_downloads_allowed(o: OrchView, evs: Seq<EventView>)
    requires
        work_gets_allowed(o.phase),
    ensures
        forall|i: int|
            0 <= i < run_actions(o, evs).len() ==> ((#[trigger] run_actions(o, evs)[i]) matches
                ActionView::Download(u) ==> allowed_src(u)),
{
    lemma_run_states_shape(o, evs);
    let s = run_states(o, evs);
    assert forall|i: int| 0 <= i < run_actions(o, evs).len() implies ((#[trigger] run_actions(
        o,
        evs,
    )[i]) matches ActionView::Download(u) ==> allowed_src(u)) by {
        lemma_gets_allowed_at(o, evs, i);
        assert(run_actions(o, evs)[i] == action_of(s[i]));
        match s[i].phase {
            PhaseView::Work { jobs, .. } => {
                if jobs.len() > 0 && jobs[0] is Get {
                    assert(work_gets_allowed(s[i].phase));
                    assert(allowed_src(jobs[0]->Get_0));
                }
            },
            _ => {},
        }
    }
}

proof fn lemma_gets_allowed_at(o: OrchView, evs: Seq<EventView>, i: int)
    requires
        work_gets_allowed(o.phase),
        0 <= i < run_states(o, evs).len(),
    ensures
        work_gets_allowed(run_states(o, evs)[i].phase),
    decreases i,
{
    lemma_run_states_shape(o, evs);
    if i > 0 {
        lemma_gets_allowed_at(o, evs, i - 1);
        assert(run_states(o, evs)[(i - 1) + 1] == transition(
            run_states(o, evs)[i - 1],
            evs[i - 1],
        ));
        lemma_step_gets_allowed(run_states(o, evs)[i - 1], evs[i - 1]);
    }
}

} // verus!
