//! Whole batches, as sequences of steps, and what holds of them.
use vstd::prelude::*;

use crate::batch::{
    idle, initial, next, output_of, running_progress, staged_name_of, ActionView, Event,
    MergerView, PhaseView,
};
use crate::paths::has_extension;

verus! {

/// The final state and the actions of a batch that starts in `s` and
/// receives `events` in order; the step on `events[i]` stages, if it does,
/// under `tokens[i]`.
pub open spec fn drive(s: MergerView, events: Seq<Event>, tokens: Seq<Seq<char>>) -> (
    MergerView,
    Seq<ActionView>,
)
    decreases events.len(),
{
    if events.len() == 0 {
        (s, seq![])
    } else {
        let first = next(s, events[0], tokens[0]);
        let rest = drive(first.0, events.drop_first(), tokens.drop_first());
        (rest.0, seq![first.1] + rest.1)
    }
}

/// The events of one pair that stages and transcodes with success.
pub open spec fn pair_succeeds() -> Seq<Event> {
    seq![Event::Next { cancelled: false }, Event::Outcome { ok: true }, Event::Outcome { ok: true }]
}

/// The events of `k` pairs that succeed, one after another.
pub open spec fn pairs_succeed(k: nat) -> Seq<Event>
    decreases k,
{
    if k == 0 {
        seq![]
    } else {
        pairs_succeed((k - 1) as nat) + pair_succeeds()
    }
}

/// What is done for pair `i`: its subtitle is staged under a name made from
/// `token`, its video is made from the staged copy, and the copy is released.
pub open spec fn pair_actions(s: MergerView, i: int, token: Seq<char>) -> Seq<ActionView> {
    let staged = staged_name_of(token, s.subtitle[i]);
    seq![
        ActionView::Stage { source: s.subtitle[i], dest: staged },
        ActionView::Invoke {
            audio: s.audio[i],
            image: s.image,
            subtitle: staged,
            output: output_of(s.audio[i]),
        },
        ActionView::Release { staged },
    ]
}

/// What is done for the `k` pairs from `s.index` on, in order.
pub open spec fn pairs_actions(s: MergerView, k: nat, tokens: Seq<Seq<char>>) -> Seq<ActionView>
    decreases k,
{
    if k == 0 {
        seq![]
    } else {
        pairs_actions(s, (k - 1) as nat, tokens) + pair_actions(
            s,
            s.index + k - 1,
            tokens[3 * (k - 1)],
        )
    }
}

pub open spec fn finishes(n: nat) -> Seq<ActionView> {
    Seq::new(n, |i: int| ActionView::Finish)
}

proof fn lemma_drive_append(s: MergerView, e1: Seq<Event>, e2: Seq<Event>, t1: Seq<Seq<char>>, t2: Seq<Seq<char>>)
    requires
        t1.len() == e1.len(),
    ensures
        drive(s, e1 + e2, t1 + t2) == ({
            let a = drive(s, e1, t1);
            let b = drive(a.0, e2, t2);
            (b.0, a.1 + b.1)
        }),
    decreases e1.len(),
{
    if e1.len() == 0 {
        assert(e1 + e2 =~= e2);
        assert(t1 + t2 =~= t2);
        assert(seq![] + drive(s, e2, t2).1 =~= drive(s, e2, t2).1);
    } else {
        let f = next(s, e1[0], t1[0]);
        assert((e1 + e2).drop_first() =~= e1.drop_first() + e2);
        assert((t1 + t2).drop_first() =~= t1.drop_first() + t2);
        lemma_drive_append(f.0, e1.drop_first(), e2, t1.drop_first(), t2);
        let a = drive(f.0, e1.drop_first(), t1.drop_first());
        let b = drive(a.0, e2, t2);
        assert(seq![f.1] + (a.1 + b.1) =~= (seq![f.1] + a.1) + b.1);
    }
}

proof fn lemma_pairs_succeed_len(k: nat)
    ensures
        pairs_succeed(k).len() == 3 * k,
    decreases k,
{
    if k > 0 {
        lemma_pairs_succeed_len((k - 1) as nat);
    }
}

/// From a state between pairs, `k` pairs that succeed are each staged, made
/// and released, and leave the batch between pairs again, `k` further on.
proof fn lemma_pairs_succeed(s: MergerView, k: nat, tokens: Seq<Seq<char>>)
    requires
        s.wf(),
        s.phase is Ready,
        s.index + k <= s.audio.len(),
        forall|j: int| s.index <= j < s.index + k ==> has_extension(#[trigger] s.subtitle[j]),
        tokens.len() == 3 * k,
    ensures
        drive(s, pairs_succeed(k), tokens) == (
            MergerView {
                index: s.index + k,
                progress: running_progress(s.index + k, s.audio.len()),
                ..s
            },
            pairs_actions(s, k, tokens),
        ),
    decreases k,
{
    if k == 0 {
        assert(s.progress == running_progress(s.index, s.audio.len()));
    } else {
        let k1 = (k - 1) as nat;
        let t1 = tokens.subrange(0, (3 * k1) as int);
        let t2 = tokens.subrange((3 * k1) as int, (3 * k) as int);
        lemma_pairs_succeed(s, k1, t1);
        lemma_pairs_succeed_len(k1);
        assert(t1 + t2 =~= tokens);
        lemma_drive_append(s, pairs_succeed(k1), pair_succeeds(), t1, t2);
        let mid = MergerView {
            index: s.index + k1,
            progress: running_progress(s.index + k1, s.audio.len()),
            ..s
        };
        let i = (s.index + k1) as int;
        assert(has_extension(s.subtitle[i]));
        reveal_with_fuel(drive, 4);
        let e = pair_succeeds();
        assert(e.drop_first().drop_first().drop_first() =~= Seq::<Event>::empty());
        assert(e.drop_first()[0] == e[1]);
        assert(e.drop_first().drop_first()[0] == e[2]);
        assert(t2.drop_first()[0] == t2[1]);
        assert(t2.drop_first().drop_first()[0] == t2[2]);
        assert(t2[0] == tokens[(3 * k1) as int]);
        assert(drive(mid, e, t2).1 =~= pair_actions(s, i, tokens[(3 * k1) as int]));
        assert(pairs_actions(s, k1, t1) =~= pairs_actions(s, k1, tokens)) by {
            lemma_pairs_actions_prefix(s, k1, t1, tokens);
        }
    }
}

proof fn lemma_pairs_actions_prefix(s: MergerView, k: nat, t1: Seq<Seq<char>>, t: Seq<Seq<char>>)
    requires
        forall|j: int| 0 <= j < 3 * k ==> #[trigger] t1[j] == t[j],
    ensures
        pairs_actions(s, k, t1) == pairs_actions(s, k, t),
    decreases k,
{
    if k > 0 {
        let k1 = (k - 1) as nat;
        lemma_pairs_actions_prefix(s, k1, t1, t);
        assert(t1[(3 * k1) as int] == t[(3 * k1) as int]);
    }
}

/// A finished batch stays finished: whatever arrives, it only says so.
proof fn lemma_done_absorbs(s: MergerView, events: Seq<Event>, tokens: Seq<Seq<char>>)
    requires
        s.phase is Done,
    ensures
        drive(s, events, tokens) == (s, finishes(events.len())),
    decreases events.len(),
{
    if events.len() > 0 {
        lemma_done_absorbs(s, events.drop_first(), tokens.drop_first());
        assert(seq![ActionView::Finish] + finishes((events.len() - 1) as nat) =~= finishes(
            events.len(),
        ));
    } else {
        assert(finishes(0) =~= Seq::<ActionView>::empty());
    }
}

/// A batch in which no one cancels and every staging and transcoder run
/// succeeds makes one video for each of the `min(audio, subtitle)` pairs, in
/// order, from a staged copy of its subtitle that is released afterwards;
/// then it finishes with the progress back at rest.
pub proof fn lemma_successful_run(
    image: Seq<char>,
    audio: Seq<Seq<char>>,
    subtitle: Seq<Seq<char>>,
    tokens: Seq<Seq<char>>,
)
    requires
        audio.len() <= usize::MAX,
        subtitle.len() <= usize::MAX,
        forall|j: int| 0 <= j < audio.len() && j < subtitle.len() ==> has_extension(
            #[trigger] subtitle[j],
        ),
        tokens.len() == 3 * initial(image, audio, subtitle).audio.len() + 1,
    ensures
        ({
            let s = initial(image, audio, subtitle);
            let n = s.audio.len();
            let r = drive(s, pairs_succeed(n).push(Event::Next { cancelled: false }), tokens);
            &&& r.0.progress == idle()
            &&& r.0.phase is Done
            &&& r.1 == pairs_actions(s, n, tokens).push(ActionView::Finish)
        }),
{
    let s = initial(image, audio, subtitle);
    let n = s.audio.len();
    let t1 = tokens.subrange(0, (3 * n) as int);
    let t2 = tokens.subrange((3 * n) as int, tokens.len() as int);
    assert(t1 + t2 =~= tokens);
    lemma_pairs_succeed_len(n);
    lemma_pairs_succeed(s, n, t1);
    lemma_pairs_actions_prefix(s, n, t1, tokens);
    let last = seq![Event::Next { cancelled: false }];
    assert(pairs_succeed(n).push(Event::Next { cancelled: false }) =~= pairs_succeed(n) + last);
    lemma_drive_append(s, pairs_succeed(n), last, t1, t2);
    reveal_with_fuel(drive, 2);
    assert(last.drop_first() =~= Seq::<Event>::empty());
    assert(pairs_actions(s, n, tokens) + seq![ActionView::Finish] =~= pairs_actions(
        s,
        n,
        tokens,
    ).push(ActionView::Finish));
}

/// The cancellation flag, once read between pairs, ends the batch: the pairs
/// done before it are the only ones staged and made, and nothing that
/// arrives afterwards starts another.
pub proof fn lemma_cancel_between_pairs(
    image: Seq<char>,
    audio: Seq<Seq<char>>,
    subtitle: Seq<Seq<char>>,
    k: nat,
    later: Seq<Event>,
    tokens: Seq<Seq<char>>,
)
    requires
        audio.len() <= usize::MAX,
        subtitle.len() <= usize::MAX,
        k <= initial(image, audio, subtitle).audio.len(),
        forall|j: int| 0 <= j < k ==> has_extension(#[trigger] subtitle[j]),
        tokens.len() == 3 * k + 1 + later.len(),
    ensures
        ({
            let s = initial(image, audio, subtitle);
            let r = drive(
                s,
                pairs_succeed(k) + seq![Event::Next { cancelled: true }] + later,
                tokens,
            );
            &&& r.0.progress == idle()
            &&& r.0.phase is Done
            &&& r.1 == pairs_actions(s, k, tokens) + finishes(later.len() + 1)
        }),
{
    let s = initial(image, audio, subtitle);
    let t1 = tokens.subrange(0, (3 * k) as int);
    let t2 = tokens.subrange((3 * k) as int, tokens.len() as int);
    assert(t1 + t2 =~= tokens);
    assert forall|j: int| s.index <= j < s.index + k implies has_extension(
        #[trigger] s.subtitle[j],
    ) by {
        assert(s.subtitle[j] == subtitle[j]);
    }
    lemma_pairs_succeed_len(k);
    lemma_pairs_succeed(s, k, t1);
    lemma_pairs_actions_prefix(s, k, t1, tokens);
    let tail = seq![Event::Next { cancelled: true }] + later;
    assert(pairs_succeed(k) + seq![Event::Next { cancelled: true }] + later =~= pairs_succeed(k)
        + tail);
    lemma_drive_append(s, pairs_succeed(k), tail, t1, t2);
    let mid = drive(s, pairs_succeed(k), t1).0;
    let after = next(mid, Event::Next { cancelled: true }, t2[0]);
    assert(after.0.phase is Done);
    lemma_done_absorbs(after.0, later, t2.drop_first());
    assert(tail.drop_first() =~= later);
    assert(seq![ActionView::Finish] + finishes(later.len()) =~= finishes(later.len() + 1));
    assert(pairs_actions(s, k, tokens) + (seq![ActionView::Finish] + finishes(later.len()))
        =~= pairs_actions(s, k, tokens) + finishes(later.len() + 1));
}

/// Every step keeps the progress consistent: while a batch is active the
/// pair being processed is within the total, and an inactive batch shows
/// all counters at zero.
pub proof fn lemma_progress_invariant(s: MergerView, e: Event, token: Seq<char>)
    requires
        s.wf(),
    ensures
        next(s, e, token).0.wf(),
        ({
            let p = next(s, e, token).0.progress;
            &&& p.active ==> p.completed <= p.total
            &&& !p.active ==> p == idle()
        }),
{
}

} // verus!
