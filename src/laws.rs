//! Properties that hold across calls of the limiter, the selector and the store.

use vstd::prelude::*;
use crate::models::{Millis, Saying, SayingSource, answers, key_of, opt_text};
use crate::preset::{Presets, PresetError, Preset, same_preset, selection_outcome};
use crate::arbiter::{
    ApiError, GenerationPlan, SayingRequest, cooling_down, cooldown_served, planning_outcome,
    user_allowed,
};
use crate::rate_limiter::{RateLimiter, check_step, checked, run_checks, window_end};
use crate::storage::{
    MemoryStorage, cached_lookup, history_page, newest_first, newest_first_slot, recorded,
};

verus! {

proof fn lemma_run_checks_len(w: Option<(u32, Millis)>, max: u32, window_seconds: u64, times: Seq<Millis>)
    ensures
        run_checks(w, max, window_seconds, times).0.len() == times.len(),
    decreases times.len(),
{
    if times.len() > 0 {
        lemma_run_checks_len(w, max, window_seconds, times.drop_last());
    }
}

/// Within one window, a user's first `max` checks are all admitted and each
/// leaves one request fewer, so `n <= max` checks leave `max - n`; the check
/// after those is refused. The window opens at the first check and every
/// later check falls before its end.
pub proof fn law_quota_within_window(max: u32, window_seconds: u64, times: Seq<Millis>)
    requires
        max >= 1,
        1 <= times.len() <= max + 1,
        forall|i: int| 1 <= i < times.len() ==> #[trigger] times[i] <= window_end(times[0], window_seconds),
    ensures
        forall|i: int|
            0 <= i < times.len() ==> (#[trigger] run_checks(None, max, window_seconds, times).0[i])
                == (i < max),
        times.len() <= max ==> run_checks(None, max, window_seconds, times).1 == Some(
            ((max - times.len()) as u32, window_end(times[0], window_seconds)),
        ),
    decreases times.len(),
{
    if times.len() > 1 {
        let prefix = times.drop_last();
        assert(prefix[0] == times[0]);
        assert forall|i: int| 1 <= i < prefix.len() implies #[trigger] prefix[i] <= window_end(
            prefix[0],
            window_seconds,
        ) by {
            assert(prefix[i] == times[i]);
        }
        law_quota_within_window(max, window_seconds, prefix);
        lemma_run_checks_len(None, max, window_seconds, prefix);
        assert(times.last() == times[times.len() - 1]);
        let prev = run_checks(None, max, window_seconds, prefix);
        let all = run_checks(None, max, window_seconds, times);
        assert(all.0 == prev.0.push(
            check_step(prev.1, max, window_end(times.last(), window_seconds), times.last()).0,
        ));
        assert forall|i: int| 0 <= i < times.len() implies (#[trigger] all.0[i]) == (i < max) by {
            if i < prefix.len() {
                assert(all.0[i] == prev.0[i]);
            }
        }
    } else {
        let all = run_checks(None, max, window_seconds, times);
        assert(times.drop_last() =~= Seq::<Millis>::empty());
        assert(run_checks(None, max, window_seconds, times.drop_last()) == (
            Seq::<bool>::empty(),
            None::<(u32, Millis)>,
        ));
        assert(all.0 =~= seq![true]);
    }
}

/// Once the end of a window has passed, the next check is admitted and
/// opens a full window minus that request, whatever quota was left.
pub proof fn law_elapsed_window_renews(
    remaining: u32,
    reset_at: Millis,
    max: u32,
    window_seconds: u64,
    now: Millis,
)
    requires
        max >= 1,
        now > reset_at,
    ensures
        check_step(Some((remaining, reset_at)), max, window_end(now, window_seconds), now) == (
            true,
            Some(((max - 1) as u32, window_end(now, window_seconds))),
        ),
{
}

/// Two selections for one user return the same preset while the pin left
/// by the first has not expired at the second.
pub proof fn law_pin_is_sticky(
    p0: Presets,
    p1: Presets,
    p2: Presets,
    user: Seq<char>,
    reset1: Millis,
    now1: Millis,
    draw1: usize,
    r1: Result<Preset, PresetError>,
    reset2: Millis,
    now2: Millis,
    draw2: usize,
    r2: Result<Preset, PresetError>,
)
    requires
        selection_outcome(p0, p1, user, reset1, now1, draw1, r1),
        selection_outcome(p1, p2, user, reset2, now2, draw2, r2),
        r1 is Ok,
        p1.pin(user) matches Some(sel) && now2 < sel.expires_at,
    ensures
        r2 is Ok,
        same_preset(r1->Ok_0, r2->Ok_0),
        p2.pin(user) == p1.pin(user),
{
}

/// A selection whose pin has expired draws afresh: the new pin is taken now
/// and lasts until the given window end.
pub proof fn law_expired_pin_is_redrawn(
    p0: Presets,
    p1: Presets,
    user: Seq<char>,
    reset_at: Millis,
    now: Millis,
    draw: usize,
    r: Result<Preset, PresetError>,
)
    requires
        selection_outcome(p0, p1, user, reset_at, now, draw, r),
        p0.pin(user) matches Some(sel) && sel.expires_at <= now,
        p0.catalog().len() > 0,
    ensures
        p1.pin(user) matches Some(s) && s.selected_at == now && s.expires_at == reset_at,
{
}

/// A lookup right after recording a result under its own key finds that
/// result exactly when it was not generated. A generated one is never
/// found, and if nothing vetted was stored under the key before, nothing is.
pub proof fn law_record_then_find(
    s0: MemoryStorage,
    s1: MemoryStorage,
    user: Seq<char>,
    saying: Saying,
    r: Option<Saying>,
)
    requires
        recorded(s0, s1, user, saying),
        cached_lookup(s1, saying.prompt@, opt_text(saying.preset_id), r),
    ensures
        (r == Some(saying)) <==> saying.source != SayingSource::LLM,
        saying.source == SayingSource::LLM && s0.cache_entry(key_of(saying)) is None
            && !s0.has_stored_answer(saying.prompt@, opt_text(saying.preset_id)) ==> r is None,
{
    let prompt = saying.prompt@;
    let preset = opt_text(saying.preset_id);
    assert(key_of(saying) == (preset, prompt));
    if saying.source == SayingSource::LLM && s0.cache_entry(key_of(saying)) is None
        && !s0.has_stored_answer(prompt, preset) && s1.has_stored_answer(prompt, preset) {
        let (u, j) = choose|u: Seq<char>, j: int|
            0 <= j < s1.history(u).len() && answers(#[trigger] s1.history(u)[j], prompt, preset)
                && s1.history(u)[j].source != SayingSource::LLM;
        if u == user {
            let h = s0.history(user);
            let p = choose|p: int|
                newest_first_slot(h, p, saying.created_at) && s1.history(user) == h.insert(p, saying);
            h.insert_ensures(p, saying);
            if j < p {
                assert(s1.history(u)[j] == h[j]);
            } else if j > p {
                assert(s1.history(u)[j] == h[j - 1]);
            }
        } else {
            assert(s0.history(u)[j] == s1.history(u)[j]);
        }
    }
}

/// A lookup of a key under which the store holds nothing finds nothing.
pub proof fn law_unseen_key_is_absent(
    s: MemoryStorage,
    prompt: Seq<char>,
    preset: Option<Seq<char>>,
    r: Option<Saying>,
)
    requires
        cached_lookup(s, prompt, preset, r),
        forall|x: Saying| s.stores(x) ==> !answers(x, prompt, preset),
    ensures
        r is None,
{
}

/// A page of a user's history holds at most `limit` entries, ordered from
/// the newest to the oldest; strictly so when no two of the user's results
/// share a creation time.
pub proof fn law_history_page_bounded_and_ordered(s: MemoryStorage, user: Seq<char>, limit: usize)
    requires
        s.wf(),
    ensures
        history_page(s, user, limit).len() <= limit,
        newest_first(history_page(s, user, limit)),
        (forall|i: int, j: int|
            0 <= i < j < s.history(user).len() ==> s.history(user)[i].created_at != s.history(
                user,
            )[j].created_at) ==> forall|i: int, j: int|
            0 <= i < j < history_page(s, user, limit).len() ==> history_page(s, user, limit)[i].created_at
                > history_page(s, user, limit)[j].created_at,
{
    s.lemma_histories_newest_first(user);
}

proof fn lemma_calls_follow_run(
    states: Seq<RateLimiter>,
    user: Seq<char>,
    times: Seq<Millis>,
    results: Seq<bool>,
    k: int,
)
    requires
        states.len() == times.len() + 1,
        results.len() == times.len(),
        forall|i: int|
            0 <= i < times.len() ==> #[trigger] checked(states[i], states[i + 1], user, times[i], results[i]),
        0 <= k <= times.len(),
    ensures
        states[k].max() == states[0].max(),
        states[k].window_seconds() == states[0].window_seconds(),
        states[k].window(user) == run_checks(
            states[0].window(user),
            states[0].max(),
            states[0].window_seconds(),
            times.take(k),
        ).1,
        results.take(k) == run_checks(
            states[0].window(user),
            states[0].max(),
            states[0].window_seconds(),
            times.take(k),
        ).0,
    decreases k,
{
    if k > 0 {
        lemma_calls_follow_run(states, user, times, results, k - 1);
        let i = k - 1;
        assert(checked(states[i], states[i + 1], user, times[i], results[i]));
        assert(i + 1 == k);
        assert(times.take(k).drop_last() =~= times.take(k - 1));
        assert(times.take(k).last() == times[k - 1]);
        assert(results.take(k) =~= results.take(k - 1).push(results[k - 1]));
    } else {
        assert(times.take(0) =~= Seq::<Millis>::empty());
        assert(results.take(0) =~= Seq::<bool>::empty());
    }
}

/// The same law over actual admission checks: if a user without a window is
/// checked at each of `times` in turn, every later check falling before the
/// end of the window the first one opened, then with a quota of `max` the
/// first `max` checks are admitted, the one after is refused, and `n <= max`
/// checks leave `max - n` in that window.
pub proof fn law_check_calls_within_window(
    states: Seq<RateLimiter>,
    user: Seq<char>,
    times: Seq<Millis>,
    results: Seq<bool>,
)
    requires
        states.len() == times.len() + 1,
        results.len() == times.len(),
        states[0].wf(),
        states[0].window(user) is None,
        1 <= times.len() <= states[0].max() + 1,
        forall|i: int|
            0 <= i < times.len() ==> #[trigger] checked(states[i], states[i + 1], user, times[i], results[i]),
        forall|i: int|
            1 <= i < times.len() ==> #[trigger] times[i] <= window_end(times[0], states[0].window_seconds()),
    ensures
        forall|i: int| 0 <= i < times.len() ==> #[trigger] results[i] == (i < states[0].max()),
        times.len() <= states[0].max() ==> states[times.len() as int].window(user) == Some(
            (
                (states[0].max() - times.len()) as u32,
                window_end(times[0], states[0].window_seconds()),
            ),
        ),
{
    let n = times.len() as int;
    states[0].lemma_remaining_bounded(user);
    lemma_calls_follow_run(states, user, times, results, n);
    assert(times.take(n) =~= times);
    assert(results.take(n) =~= results);
    law_quota_within_window(states[0].max(), states[0].window_seconds(), times);
    assert forall|i: int| 0 <= i < times.len() implies #[trigger] results[i] == (i < states[0].max()) by {
        assert(run_checks(None, states[0].max(), states[0].window_seconds(), times).0[i] == results[i]);
    }
}

/// With a quota of one, a user's first request (a free-form prompt, no
/// window yet) is planned and leaves the user in cooldown until the end of
/// the window it opened; a further request in that window, from a user with
/// no stored result and nothing cached to sample, is refused as rate limited.
pub proof fn law_single_quota_then_refused(
    lim0: RateLimiter,
    lim1: RateLimiter,
    pre: Presets,
    post: Presets,
    user: Seq<char>,
    request: SayingRequest,
    language_id: Seq<char>,
    now: Millis,
    preset_draw: usize,
    prompt_draw: usize,
    release_build: bool,
    r: Result<GenerationPlan, ApiError>,
    later: Millis,
    draw: usize,
    r2: Result<Saying, ApiError>,
)
    requires
        lim0.max() == 1,
        lim0.window(user) is None,
        user_allowed(user, release_build),
        request.prompt is Some,
        planning_outcome(lim0, lim1, pre, post, user, request, language_id, now, preset_draw, prompt_draw, release_build, r),
        now <= later <= window_end(now, lim0.window_seconds()),
        cooldown_served(None, Seq::empty(), draw, r2),
    ensures
        r is Ok,
        lim1.window(user) == Some((0u32, window_end(now, lim0.window_seconds()))),
        cooling_down(lim1.window(user), later),
        r2 matches Err(ApiError::RateLimited(_)),
{
}

} // verus!
