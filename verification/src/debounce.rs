//! Debounced user notification. Every notification carries a key; a
//! notification with a given key is emitted only when none with the same key
//! was emitted in the last five seconds. The table from key to the time of
//! the last emission is owned by the event loop and updated synchronously,
//! so the window needs no timer of its own.

use vstd::prelude::*;

verus! {

/// The per-key suppression window, in milliseconds.
pub const DEBOUNCE_WINDOW_MS: u64 = 5000;

/// A toast to show the user: the debounce key it is filed under, and its
/// title and body text.
#[derive(Debug, Clone)]
pub struct Notification {
    pub key: String,
    pub title: String,
    pub body: String,
}

#[verifier::ext_equal]
pub ghost struct NotificationView {
    pub key: Seq<char>,
    pub title: Seq<char>,
    pub body: Seq<char>,
}

impl View for Notification {
    type V = NotificationView;

    open spec fn view(&self) -> NotificationView {
        NotificationView { key: self.key@, title: self.title@, body: self.body@ }
    }
}

/// One row of the debounce table: a key and the time, in milliseconds on the
/// caller's monotonic clock, when a notification with that key last fired.
#[derive(Debug, Clone)]
pub struct KeyTime {
    pub key: String,
    pub last_ms: u64,
}

#[verifier::ext_equal]
pub ghost struct KeyTimeView {
    pub key: Seq<char>,
    pub last_ms: u64,
}

impl View for KeyTime {
    type V = KeyTimeView;

    open spec fn view(&self) -> KeyTimeView {
        KeyTimeView { key: self.key@, last_ms: self.last_ms }
    }
}

impl DeepView for KeyTime {
    type V = KeyTimeView;

    open spec fn deep_view(&self) -> KeyTimeView {
        self@
    }
}

pub open spec fn has_key(times: Seq<KeyTimeView>, key: Seq<char>) -> bool {
    exists|i: int| 0 <= i < times.len() && times[i].key == key
}

pub open spec fn key_index(times: Seq<KeyTimeView>, key: Seq<char>) -> int {
    choose|i: int| 0 <= i < times.len() && times[i].key == key
}

/// The time a notification with `key` last fired; meaningful only when
/// `has_key` holds and the keys are unique.
pub open spec fn key_get(times: Seq<KeyTimeView>, key: Seq<char>) -> u64 {
    times[key_index(times, key)].last_ms
}

/// The table after recording that `key` fired at `now_ms`.
pub open spec fn spec_times_insert(
    times: Seq<KeyTimeView>,
    key: Seq<char>,
    now_ms: u64,
) -> Seq<KeyTimeView> {
    if has_key(times, key) {
        times.update(key_index(times, key), KeyTimeView { key, last_ms: now_ms })
    } else {
        times.push(KeyTimeView { key, last_ms: now_ms })
    }
}

pub open spec fn times_wf(times: Seq<KeyTimeView>) -> bool {
    forall|i: int, j: int|
        0 <= i < times.len() && 0 <= j < times.len() && i != j ==> times[i].key != times[j].key
}

/// A notification with `key` may fire at `now_ms`: either none fired before,
/// or the last one fired at least the suppression window ago.
pub open spec fn spec_should_emit(times: Seq<KeyTimeView>, key: Seq<char>, now_ms: u64) -> bool {
    !has_key(times, key) || key_get(times, key) + DEBOUNCE_WINDOW_MS <= now_ms
}

pub proof fn lemma_key_index_unique(times: Seq<KeyTimeView>, key: Seq<char>, i: int)
    requires
        times_wf(times),
        0 <= i < times.len(),
        times[i].key == key,
    ensures
        has_key(times, key),
        key_index(times, key) == i,
{
    assert(has_key(times, key));
    let j = key_index(times, key);
    if i != j {
        assert(times[i].key != times[j].key);
    }
}

/// Recording a time keeps the keys unique and stores `now_ms` under `key`.
pub proof fn lemma_times_insert(times: Seq<KeyTimeView>, key: Seq<char>, now_ms: u64)
    requires
        times_wf(times),
    ensures
        times_wf(spec_times_insert(times, key, now_ms)),
        has_key(spec_times_insert(times, key, now_ms), key),
        key_get(spec_times_insert(times, key, now_ms), key) == now_ms,
        forall|k: Seq<char>|
            k != key ==> #[trigger] has_key(spec_times_insert(times, key, now_ms), k) == has_key(
                times,
                k,
            ),
{
    let post = spec_times_insert(times, key, now_ms);
    if has_key(times, key) {
        let i = key_index(times, key);
        assert(0 <= i < times.len() && times[i].key == key);
        assert(post[i].key == key);
        lemma_key_index_unique(post, key, i);
    } else {
        assert(post[times.len() as int].key == key);
        assert(forall|i: int| 0 <= i < times.len() ==> #[trigger] post[i] == times[i]);
        lemma_key_index_unique(post, key, times.len() as int);
    }
    assert forall|k: Seq<char>| k != key implies #[trigger] has_key(post, k) == has_key(
        times,
        k,
    ) by {
        if has_key(post, k) {
            let i = choose|i: int| 0 <= i < post.len() && post[i].key == k;
            assert(0 <= i < times.len() && times[i].key == k);
        }
        if has_key(times, k) {
            let i = choose|i: int| 0 <= i < times.len() && times[i].key == k;
            assert(post[i].key == k);
        }
    }
}

/// The debounce table.
#[derive(Debug, Clone)]
pub struct NotificationTimes {
    pub entries: Vec<KeyTime>,
}

impl View for NotificationTimes {
    type V = Seq<KeyTimeView>;

    open spec fn view(&self) -> Seq<KeyTimeView> {
        self.entries.deep_view()
    }
}

impl NotificationTimes {
    pub fn new() -> (times: Self)
        ensures
            times@.len() == 0,
            times_wf(times@),
    {
        NotificationTimes { entries: Vec::new() }
    }

    /// Decides whether a notification with `key` may fire at `now_ms`, and
    /// if so records the emission. The caller shows the notification exactly
    /// when this returns true.
    pub fn send_notification_debounced(&mut self, key: &String, now_ms: u64) -> (emit: bool)
        requires
            times_wf(old(self)@),
        ensures
            times_wf(final(self)@),
            emit == spec_should_emit(old(self)@, key@, now_ms),
            emit ==> final(self)@ == spec_times_insert(old(self)@, key@, now_ms),
            !emit ==> final(self)@ == old(self)@,
    {
        let n = self.entries.len();
        for i in 0..n
            invariant
                n == self.entries.len(),
                times_wf(self@),
                self@ == old(self)@,
                forall|j: int| 0 <= j < i ==> self@[j].key != key@,
        {
            if self.entries[i].key.eq(key) {
                proof {
                    lemma_key_index_unique(self@, key@, i as int);
                }
                let last = self.entries[i].last_ms;
                if last <= now_ms && now_ms - last >= DEBOUNCE_WINDOW_MS {
                    self.entries[i] = KeyTime { key: key.clone(), last_ms: now_ms };
                    proof {
                        assert(final(self)@ =~= spec_times_insert(old(self)@, key@, now_ms));
                        lemma_times_insert(old(self)@, key@, now_ms);
                    }
                    return true;
                } else {
                    return false;
                }
            }
        }
        proof {
            if has_key(self@, key@) {
                let w = key_index(self@, key@);
                assert(self@[w].key != key@);
            }
        }
        self.entries.push(KeyTime { key: key.clone(), last_ms: now_ms });
        proof {
            assert(final(self)@ =~= spec_times_insert(old(self)@, key@, now_ms));
            lemma_times_insert(old(self)@, key@, now_ms);
        }
        true
    }
}

/// The debounce window works: after a notification with `key` fires at
/// `t1`, a second request with the same key within the window is suppressed,
/// and one at or past the window fires; a request under a different key is
/// not affected.
pub proof fn lemma_debounce_window(
    times: Seq<KeyTimeView>,
    key: Seq<char>,
    t1: u64,
    t2: u64,
)
    requires
        times_wf(times),
        spec_should_emit(times, key, t1),
    ensures
        t2 < t1 + DEBOUNCE_WINDOW_MS ==> !spec_should_emit(
            spec_times_insert(times, key, t1),
            key,
            t2,
        ),
        t2 >= t1 + DEBOUNCE_WINDOW_MS ==> spec_should_emit(
            spec_times_insert(times, key, t1),
            key,
            t2,
        ),
{
    lemma_times_insert(times, key, t1);
}

} // verus!
