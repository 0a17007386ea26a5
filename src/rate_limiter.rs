//! Fixed-window per-user request quotas.

use vstd::prelude::*;
use crate::clock::now_millis;
use crate::config::RateLimitConfig;
use crate::models::{Millis, RateLimitInfo, same_text};

verus! {

/// The end of a window that opens at `now` and lasts `window_seconds`,
/// saturating at the largest representable time.
pub open spec fn window_end(now: Millis, window_seconds: u64) -> Millis {
    if now + window_seconds * 1000 > i64::MAX {
        i64::MAX
    } else {
        (now + window_seconds * 1000) as i64
    }
}

/// One admission check at `now` on a user's window `(remaining, reset_at)`:
/// whether it is admitted and the window afterwards. A missing or elapsed
/// window is replaced by a full one minus this request; otherwise a request
/// is admitted while quota remains, and a refusal changes nothing.
pub open spec fn check_step(w: Option<(u32, Millis)>, max: u32, end: Millis, now: Millis) -> (
    bool,
    Option<(u32, Millis)>,
) {
    match w {
        None => (true, Some(((max - 1) as u32, end))),
        Some((remaining, reset_at)) => if now > reset_at {
            (true, Some(((max - 1) as u32, end)))
        } else if remaining > 0 {
            (true, Some(((remaining - 1) as u32, reset_at)))
        } else {
            (false, w)
        },
    }
}

/// The admissions and the final window of a user after checks at each of
/// `times` in turn, starting from window `w`.
pub open spec fn run_checks(w: Option<(u32, Millis)>, max: u32, window_seconds: u64, times: Seq<Millis>) -> (
    Seq<bool>,
    Option<(u32, Millis)>,
)
    decreases times.len(),
{
    if times.len() == 0 {
        (Seq::empty(), w)
    } else {
        let prev = run_checks(w, max, window_seconds, times.drop_last());
        let step = check_step(prev.1, max, window_end(times.last(), window_seconds), times.last());
        (prev.0.push(step.0), step.1)
    }
}

/// Computes the end of a window opening at `now`.
pub fn compute_window_end(now: Millis, window_seconds: u64) -> (r: Millis)
    ensures
        r == window_end(now, window_seconds),
{
    let end: i128 = now as i128 + (window_seconds as i128) * 1000;
    if end > i64::MAX as i128 {
        i64::MAX
    } else {
        end as i64
    }
}

/// `post` is `pre` after an admission check of `user` at `now` answered `r`
/// (see `check_step`); the settings and every other user's window stay.
pub open spec fn checked(pre: RateLimiter, post: RateLimiter, user: Seq<char>, now: Millis, r: bool) -> bool {
    &&& post.wf()
    &&& post.max() == pre.max()
    &&& post.window_seconds() == pre.window_seconds()
    &&& (r, post.window(user)) == check_step(pre.window(user), pre.max(), window_end(now, pre.window_seconds()), now)
    &&& forall|u: Seq<char>| u != user ==> post.window(u) == pre.window(u)
}

/// Per-user fixed-window quota tracker.
#[derive(Debug)]
pub struct RateLimiter {
    config: RateLimitConfig,
    store: Vec<RateLimitInfo>,
}

impl RateLimiter {
    /// The quota of a full window.
    pub closed spec fn max(&self) -> u32 {
        self.config.max_requests
    }

    /// The length of a window, in seconds.
    pub closed spec fn window_seconds(&self) -> u64 {
        self.config.window_seconds
    }

    closed spec fn has_window(&self, user: Seq<char>) -> bool {
        exists|i: int| 0 <= i < self.store@.len() && self.store@[i].user_id@ == user
    }

    /// The window of `user` as `(remaining, reset_at)`, if one exists.
    pub closed spec fn window(&self, user: Seq<char>) -> Option<(u32, Millis)> {
        if self.has_window(user) {
            let info = self.store@[choose|i: int|
                0 <= i < self.store@.len() && self.store@[i].user_id@ == user];
            Some((info.remaining_requests, info.reset_at))
        } else {
            None
        }
    }

    /// Internal consistency: at least one request per window, one window per
    /// user, and no window with more than the full quota.
    pub closed spec fn wf(&self) -> bool {
        &&& self.config.max_requests >= 1
        &&& forall|i: int|
            0 <= i < self.store@.len() ==> #[trigger] self.store@[i].remaining_requests
                <= self.config.max_requests
        &&& forall|i: int, j: int|
            0 <= i < self.store@.len() && 0 <= j < self.store@.len() && i != j
                ==> self.store@[i].user_id@ != self.store@[j].user_id@
    }

    proof fn lemma_window_at(&self, i: int)
        requires
            self.wf(),
            0 <= i < self.store@.len(),
        ensures
            self.window(self.store@[i].user_id@) == Some(
                (self.store@[i].remaining_requests, self.store@[i].reset_at),
            ),
    {
        let u = self.store@[i].user_id@;
        assert(self.has_window(u));
        let c = choose|c: int| 0 <= c < self.store@.len() && self.store@[c].user_id@ == u;
        assert(c == i);
    }

    /// A window never holds more than the full quota.
    pub proof fn lemma_remaining_bounded(&self, user: Seq<char>)
        requires
            self.wf(),
        ensures
            self.max() >= 1,
            self.window(user) matches Some((remaining, _)) ==> remaining <= self.max(),
    {
        if self.has_window(user) {
            let c = choose|c: int| 0 <= c < self.store@.len() && self.store@[c].user_id@ == user;
            assert(self.store@[c].remaining_requests <= self.config.max_requests);
        }
    }

    /// A limiter with no windows yet.
    pub fn new(config: RateLimitConfig) -> (r: RateLimiter)
        requires
            config.max_requests >= 1,
        ensures
            r.wf(),
            r.max() == config.max_requests,
            r.window_seconds() == config.window_seconds,
            forall|u: Seq<char>| #[trigger] r.window(u) is None,
    {
        RateLimiter { config, store: Vec::new() }
    }

    /// The configured quota of a full window.
    pub fn max_requests(&self) -> (r: u32)
        ensures
            r == self.max(),
    {
        self.config.max_requests
    }

    fn find(&self, user_id: &str) -> (r: Option<usize>)
        ensures
            match r {
                Some(i) => i < self.store@.len() && self.store@[i as int].user_id@ == user_id@,
                None => !self.has_window(user_id@),
            },
    {
        let mut i: usize = 0;
        while i < self.store.len()
            invariant
                0 <= i <= self.store@.len(),
                forall|j: int| 0 <= j < i ==> self.store@[j].user_id@ != user_id@,
            decreases self.store@.len() - i,
        {
            if same_text(self.store[i].user_id.as_str(), user_id) {
                return Some(i);
            }
            i = i + 1;
        }
        None
    }

    fn install(&mut self, user_id: &str, remaining: u32, reset_at: Millis)
        requires
            old(self).wf(),
            remaining <= old(self).config.max_requests,
        ensures
            final(self).wf(),
            final(self).config == old(self).config,
            final(self).window(user_id@) == Some((remaining, reset_at)),
            forall|u: Seq<char>| u != user_id@ ==> final(self).window(u) == old(self).window(u),
    {
        let ghost pre = *self;
        let info = RateLimitInfo { user_id: user_id.to_owned(), remaining_requests: remaining, reset_at };
        let n = self.store.len();
        match self.find(user_id) {
            Some(i) => {
                self.store.set(i, info);
                proof {
                    self.lemma_window_at(i as int);
                    assert forall|u: Seq<char>| u != user_id@ implies self.window(u) == pre.window(
                        u,
                    ) by {
                        if pre.has_window(u) {
                            let c = choose|c: int|
                                0 <= c < pre.store@.len() && pre.store@[c].user_id@ == u;
                            pre.lemma_window_at(c);
                            self.lemma_window_at(c);
                        } else if self.has_window(u) {
                            let c = choose|c: int|
                                0 <= c < self.store@.len() && self.store@[c].user_id@ == u;
                            assert(pre.store@[c].user_id@ == u);
                        }
                    }
                }
            },
            None => {
                self.store.push(info);
                proof {
                    assert forall|i: int, j: int|
                        0 <= i < self.store@.len() && 0 <= j < self.store@.len() && i != j
                            implies self.store@[i].user_id@ != self.store@[j].user_id@ by {
                        if i == n {
                            assert(pre.store@[j].user_id@ != user_id@);
                        } else if j == n {
                            assert(pre.store@[i].user_id@ != user_id@);
                        }
                    }
                    self.lemma_window_at(n as int);
                    assert forall|u: Seq<char>| u != user_id@ implies self.window(u) == pre.window(
                        u,
                    ) by {
                        if pre.has_window(u) {
                            let c = choose|c: int|
                                0 <= c < pre.store@.len() && pre.store@[c].user_id@ == u;
                            pre.lemma_window_at(c);
                            self.lemma_window_at(c);
                        } else if self.has_window(u) {
                            let c = choose|c: int|
                                0 <= c < self.store@.len() && self.store@[c].user_id@ == u;
                            assert(c != n);
                            assert(pre.store@[c].user_id@ == u);
                        }
                    }
                }
            },
        }
    }

    /// Admission check for `user_id` at time `now`: see `check_step`.
    pub fn check_at(&mut self, user_id: &str, now: Millis) -> (r: bool)
        requires
            old(self).wf(),
        ensures
            checked(*old(self), *final(self), user_id@, now, r),
    {
        let max = self.config.max_requests;
        let end = compute_window_end(now, self.config.window_seconds);
        match self.find(user_id) {
            Some(i) => {
                proof {
                    self.lemma_window_at(i as int);
                }
                let remaining = self.store[i].remaining_requests;
                let reset_at = self.store[i].reset_at;
                if now > reset_at {
                    self.install(user_id, max - 1, end);
                    true
                } else if remaining > 0 {
                    self.install(user_id, remaining - 1, reset_at);
                    true
                } else {
                    false
                }
            },
            None => {
                self.install(user_id, max - 1, end);
                true
            },
        }
    }

    /// Admission check for `user_id` at the current time.
    pub fn check(&mut self, user_id: &str) -> (r: bool)
        requires
            old(self).wf(),
        ensures
            final(self).wf(),
            final(self).max() == old(self).max(),
            final(self).window_seconds() == old(self).window_seconds(),
            exists|now: Millis|
                (r, final(self).window(user_id@)) == check_step(
                    old(self).window(user_id@),
                    old(self).max(),
                    window_end(now, old(self).window_seconds()),
                    now,
                ),
            forall|u: Seq<char>| u != user_id@ ==> final(self).window(u) == old(self).window(u),
    {
        let now = now_millis();
        self.check_at(user_id, now)
    }

    /// Gives `user_id` a fresh window with the full quota, opening at `now`.
    pub fn reset_at(&mut self, user_id: &str, now: Millis)
        requires
            old(self).wf(),
        ensures
            final(self).wf(),
            final(self).max() == old(self).max(),
            final(self).window_seconds() == old(self).window_seconds(),
            final(self).window(user_id@) == Some(
                (old(self).max(), window_end(now, old(self).window_seconds())),
            ),
            forall|u: Seq<char>| u != user_id@ ==> final(self).window(u) == old(self).window(u),
    {
        let end = compute_window_end(now, self.config.window_seconds);
        let max = self.config.max_requests;
        self.install(user_id, max, end);
    }

    /// Gives `user_id` a fresh window with the full quota, opening now.
    pub fn reset(&mut self, user_id: &str)
        requires
            old(self).wf(),
        ensures
            final(self).wf(),
            final(self).max() == old(self).max(),
            final(self).window_seconds() == old(self).window_seconds(),
            exists|now: Millis|
                final(self).window(user_id@) == Some(
                    (old(self).max(), window_end(now, old(self).window_seconds())),
                ),
            forall|u: Seq<char>| u != user_id@ ==> final(self).window(u) == old(self).window(u),
    {
        let now = now_millis();
        self.reset_at(user_id, now);
    }

    /// A snapshot of the window of `user_id`; creates none.
    pub fn get_limit_info(&self, user_id: &str) -> (r: Option<RateLimitInfo>)
        requires
            self.wf(),
        ensures
            match r {
                Some(info) => info.user_id@ == user_id@ && self.window(user_id@) == Some(
                    (info.remaining_requests, info.reset_at),
                ),
                None => self.window(user_id@) is None,
            },
    {
        match self.find(user_id) {
            Some(i) => {
                proof {
                    self.lemma_window_at(i as int);
                }
                Some(self.store[i].clone())
            },
            None => None,
        }
    }
}

} // verus!
