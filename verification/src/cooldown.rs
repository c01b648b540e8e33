//! Per-(command, user) rate limiting.
//!
//! The tracker maps a (command name, user id) pair to the timestamp of the
//! last successful invocation. A new invocation is allowed when no timestamp
//! is stored or when at least the configured window has elapsed; an allowed
//! invocation records the current time, a throttled one changes nothing.
//!
//! Time is passed in explicitly as whole seconds, so the tracker can be
//! exercised deterministically; the caller supplies a monotonic clock.

use vstd::prelude::*;
use vstd::pervasive::VecAdditionalExecFns;

use crate::elapsed_seconds;
use crate::error::BotError;
use crate::strutil::str_eq;

verus! {

/// One throttling slot: the last successful use of `command` by `user_id`.
pub struct CooldownSlot {
    pub command: String,
    pub user_id: u64,
    pub last_used: u64,
}

/// The key a slot is addressed by.
pub open spec fn slot_key(s: CooldownSlot) -> (Seq<char>, u64) {
    (s.command@, s.user_id)
}

/// Tracks, for every (command, user) pair, when the user last ran the
/// command successfully.
pub struct CooldownManager {
    slots: Vec<CooldownSlot>,
}

/// A fresh invocation of `key` at time `now` is allowed under `window`:
/// either nothing is recorded, or the record is at least `window` seconds old.
pub open spec fn cooldown_allows(
    m: Map<(Seq<char>, u64), u64>,
    key: (Seq<char>, u64),
    window: u64,
    now: u64,
) -> bool {
    !m.contains_key(key) || elapsed_seconds(m[key], now) >= window
}

/// The store after one `check_cooldown` call on `key` at time `now`:
/// an allowed call records `now`, a throttled call changes nothing.
pub open spec fn cooldown_after_check(
    m: Map<(Seq<char>, u64), u64>,
    key: (Seq<char>, u64),
    window: u64,
    now: u64,
) -> Map<(Seq<char>, u64), u64> {
    if cooldown_allows(m, key, window, now) {
        m.insert(key, now)
    } else {
        m
    }
}

/// The store after a sweep at time `now`: exactly the entries younger than
/// `max_age` seconds remain, unchanged.
pub open spec fn cooldown_after_cleanup(
    m: Map<(Seq<char>, u64), u64>,
    max_age: u64,
    now: u64,
) -> Map<(Seq<char>, u64), u64> {
    Map::new(
        |key: (Seq<char>, u64)| m.contains_key(key) && elapsed_seconds(m[key], now) < max_age,
        |key: (Seq<char>, u64)| m[key],
    )
}

impl View for CooldownManager {
    type V = Map<(Seq<char>, u64), u64>;

    closed spec fn view(&self) -> Map<(Seq<char>, u64), u64> {
        Map::new(
            |key: (Seq<char>, u64)|
                exists|i: int| 0 <= i < self.slots@.len() && slot_key(self.slots@[i]) == key,
            |key: (Seq<char>, u64)|
                {
                    let i = choose|i: int|
                        0 <= i < self.slots@.len() && slot_key(self.slots@[i]) == key;
                    self.slots@[i].last_used
                },
        )
    }
}

impl CooldownManager {
    /// At most one slot per (command, user) pair.
    pub closed spec fn wf(&self) -> bool {
        forall|i: int, j: int|
            0 <= i < j < self.slots@.len() ==> slot_key(self.slots@[i]) != slot_key(
                self.slots@[j],
            )
    }

    proof fn lemma_slot_view(&self, i: int)
        requires
            self.wf(),
            0 <= i < self.slots@.len(),
        ensures
            self@.contains_key(slot_key(self.slots@[i])),
            self@[slot_key(self.slots@[i])] == self.slots@[i].last_used,
    {
        let key = slot_key(self.slots@[i]);
        assert(self@.contains_key(key));
        let j = choose|j: int| 0 <= j < self.slots@.len() && slot_key(self.slots@[j]) == key;
        if i < j {
            assert(slot_key(self.slots@[i]) != slot_key(self.slots@[j]));
        } else if j < i {
            assert(slot_key(self.slots@[j]) != slot_key(self.slots@[i]));
        }
    }

    proof fn lemma_absent_view(&self, key: (Seq<char>, u64))
        requires
            forall|i: int| 0 <= i < self.slots@.len() ==> slot_key(self.slots@[i]) != key,
        ensures
            !self@.contains_key(key),
    {
    }

    /// Creates an empty tracker.
    pub fn new() -> (r: Self)
        ensures
            r.wf(),
            r@ == Map::<(Seq<char>, u64), u64>::empty(),
    {
        let r = CooldownManager { slots: Vec::new() };
        proof {
            assert(r@ =~= Map::<(Seq<char>, u64), u64>::empty());
        }
        r
    }

    /// Checks whether `user_id` may run `command` at time `now` under a
    /// cooldown of `cooldown_seconds`, and records `now` if so. A throttled
    /// attempt reports the whole seconds left and leaves the record as it was.
    pub fn check_cooldown(
        &mut self,
        command: &str,
        user_id: u64,
        cooldown_seconds: u64,
        now: u64,
    ) -> (r: Result<(), BotError>)
        requires
            old(self).wf(),
        ensures
            final(self).wf(),
            r is Ok <==> cooldown_allows(old(self)@, (command@, user_id), cooldown_seconds, now),
            final(self)@ == cooldown_after_check(
                old(self)@,
                (command@, user_id),
                cooldown_seconds,
                now,
            ),
            r matches Err(e) ==> e == BotError::Cooldown(
                (cooldown_seconds - elapsed_seconds(old(self)@[(command@, user_id)], now)) as u64,
            ),
    {
        let ghost key = (command@, user_id);
        let mut i: usize = 0;
        while i < self.slots.len()
            invariant
                old(self).wf(),
                self.slots@ == old(self).slots@,
                i <= self.slots@.len(),
                forall|j: int| 0 <= j < i ==> slot_key(self.slots@[j]) != key,
                key == (command@, user_id),
            decreases self.slots@.len() - i,
        {
            if str_eq(self.slots[i].command.as_str(), command) && self.slots[i].user_id == user_id
            {
                proof {
                    assert(self.wf());
                    assert(slot_key(self.slots@[i as int]) == key);
                    self.lemma_slot_view(i as int);
                }
                let last = self.slots[i].last_used;
                let elapsed = if now >= last {
                    now - last
                } else {
                    0
                };
                if elapsed < cooldown_seconds {
                    let remaining = cooldown_seconds - elapsed;
                    proof {
                        assert(!cooldown_allows(old(self)@, key, cooldown_seconds, now));
                    }
                    return Err(BotError::Cooldown(remaining));
                } else {
                    let refreshed = CooldownSlot {
                        command: self.slots[i].command.clone(),
                        user_id,
                        last_used: now,
                    };
                    proof {
                        assert(slot_key(refreshed) == key);
                    }
                    self.slots.set(i, refreshed);
                    proof {
                        assert forall|a: int, b: int|
                            0 <= a < b < self.slots@.len() implies slot_key(self.slots@[a])
                            != slot_key(self.slots@[b]) by {
                            assert(slot_key(self.slots@[a]) == slot_key(old(self).slots@[a]));
                            assert(slot_key(self.slots@[b]) == slot_key(old(self).slots@[b]));
                        }
                        self.lemma_slot_view(i as int);
                        let target = cooldown_after_check(old(self)@, key, cooldown_seconds, now);
                        assert forall|k2: (Seq<char>, u64)| #[trigger]
                            self@.contains_key(k2) implies target.contains_key(k2) && self@[k2]
                            == target[k2] by {
                            if k2 != key {
                                self.lemma_changed_slot(*old(self), i as int, k2);
                            }
                        }
                        assert forall|k2: (Seq<char>, u64)| #[trigger]
                            target.contains_key(k2) implies self@.contains_key(k2) by {
                            if k2 != key {
                                self.lemma_changed_slot(*old(self), i as int, k2);
                            }
                        }
                        assert(self@ =~= target);
                    }
                    return Ok(());
                }
            }
            i += 1;
        }
        proof {
            self.lemma_absent_view(key);
        }
        let slot = CooldownSlot { command: command.to_owned(), user_id, last_used: now };
        self.slots.push(slot);
        proof {
            assert(slot_key(self.slots@[self.slots@.len() - 1]) == key);
            assert forall|a: int, b: int|
                0 <= a < b < self.slots@.len() implies slot_key(self.slots@[a]) != slot_key(
                self.slots@[b]) by {
                if b < self.slots@.len() - 1 {
                    assert(slot_key(old(self).slots@[a]) != slot_key(old(self).slots@[b]));
                } else {
                    assert(slot_key(self.slots@[a]) == slot_key(old(self).slots@[a]));
                    assert(slot_key(old(self).slots@[a]) != key);
                }
            }
            self.lemma_slot_view(self.slots@.len() - 1);
            let target = cooldown_after_check(old(self)@, key, cooldown_seconds, now);
            assert forall|k2: (Seq<char>, u64)| #[trigger]
                self@.contains_key(k2) implies target.contains_key(k2) && self@[k2]
                == target[k2] by {
                if k2 != key {
                    self.lemma_changed_slot(*old(self), self.slots@.len() - 1, k2);
                }
            }
            assert forall|k2: (Seq<char>, u64)| #[trigger]
                target.contains_key(k2) implies self@.contains_key(k2) by {
                if k2 != key {
                    self.lemma_changed_slot(*old(self), self.slots@.len() - 1, k2);
                }
            }
            assert(self@ =~= target);
        }
        Ok(())
    }

    /// After changing or appending only the slot at `i`, every other key
    /// still maps exactly as before.
    proof fn lemma_changed_slot(&self, older: Self, i: int, k2: (Seq<char>, u64))
        requires
            self.wf(),
            older.wf(),
            0 <= i < self.slots@.len(),
            older.slots@.len() == self.slots@.len() || older.slots@.len() == self.slots@.len()
                - 1,
            older.slots@.len() == self.slots@.len() - 1 ==> i == self.slots@.len() - 1,
            forall|j: int|
                0 <= j < self.slots@.len() && j != i ==> self.slots@[j] == older.slots@[j],
            k2 != slot_key(self.slots@[i]),
            older.slots@.len() == self.slots@.len() ==> k2 != slot_key(older.slots@[i]),
        ensures
            self@.contains_key(k2) == older@.contains_key(k2),
            self@.contains_key(k2) ==> self@[k2] == older@[k2],
    {
        if self@.contains_key(k2) {
            let j = choose|j: int| 0 <= j < self.slots@.len() && slot_key(self.slots@[j]) == k2;
            assert(j != i);
            assert(older.slots@[j] == self.slots@[j]);
            older.lemma_slot_view(j);
            self.lemma_slot_view(j);
        } else {
            if older@.contains_key(k2) {
                let j = choose|j: int|
                    0 <= j < older.slots@.len() && slot_key(older.slots@[j]) == k2;
                assert(j != i);
                assert(self.slots@[j] == older.slots@[j]);
                assert(slot_key(self.slots@[j]) == k2);
                assert(self@.contains_key(k2));
            }
        }
    }

    /// Removes every record older than `max_age_seconds` as of `now`,
    /// across all commands and users. Purely a memory bound: throttling
    /// decisions never depend on it. A sweep of an empty store is a no-op.
    pub fn cleanup_expired(&mut self, max_age_seconds: u64, now: u64)
        requires
            old(self).wf(),
        ensures
            final(self).wf(),
            final(self)@ == cooldown_after_cleanup(old(self)@, max_age_seconds, now),
    {
        let mut kept: Vec<CooldownSlot> = Vec::new();
        let mut i: usize = 0;
        while i < self.slots.len()
            invariant
                old(self).wf(),
                self.slots@ == old(self).slots@,
                i <= self.slots@.len(),
                forall|a: int, b: int|
                    0 <= a < b < kept@.len() ==> slot_key(kept@[a]) != slot_key(kept@[b]),
                forall|a: int| #![trigger kept@[a]]
                    0 <= a < kept@.len() ==> exists|j: int| #![trigger self.slots@[j]]
                        0 <= j < i && kept@[a] == self.slots@[j],
                forall|j: int| #![trigger self.slots@[j]]
                    0 <= j < i ==> (elapsed_seconds(self.slots@[j].last_used, now)
                        < max_age_seconds <==> exists|a: int| #![trigger kept@[a]]
                        0 <= a < kept@.len() && kept@[a] == self.slots@[j]),
            decreases self.slots@.len() - i,
        {
            let last = self.slots[i].last_used;
            let elapsed = if now >= last {
                now - last
            } else {
                0
            };
            let ghost prev = kept@;
            proof {
                assert forall|a: int| 0 <= a < prev.len() implies slot_key(prev[a]) != slot_key(
                self.slots@[i as int]) by {
                    let j = choose|j: int|
                        #![trigger self.slots@[j]]
                        0 <= j < i && prev[a] == self.slots@[j];
                    assert(slot_key(self.slots@[j]) != slot_key(self.slots@[i as int]));
                }
            }
            if elapsed < max_age_seconds {
                let copy = CooldownSlot {
                    command: self.slots[i].command.clone(),
                    user_id: self.slots[i].user_id,
                    last_used: self.slots[i].last_used,
                };
                proof {
                    assert(copy == self.slots@[i as int]);
                }
                kept.push(copy);
            }
            proof {
                assert forall|j: int|
                    #![trigger self.slots@[j]]
                    0 <= j < i + 1 implies (elapsed_seconds(self.slots@[j].last_used, now)
                    < max_age_seconds <==> exists|a: int|
                    #![trigger kept@[a]]
                    0 <= a < kept@.len() && kept@[a] == self.slots@[j]) by {
                    if j == i {
                        if elapsed_seconds(self.slots@[j].last_used, now) < max_age_seconds {
                            assert(kept@[kept@.len() - 1] == self.slots@[j]);
                        } else {
                            assert forall|a: int| 0 <= a < kept@.len() implies kept@[a]
                                != self.slots@[j] by {
                                assert(kept@[a] == prev[a]);
                                assert(slot_key(prev[a]) != slot_key(self.slots@[i as int]));
                            }
                        }
                    } else {
                        if elapsed_seconds(self.slots@[j].last_used, now) < max_age_seconds {
                            let a = choose|a: int|
                                #![trigger prev[a]]
                                0 <= a < prev.len() && prev[a] == self.slots@[j];
                            assert(kept@[a] == self.slots@[j]);
                        } else {
                            assert forall|a: int| 0 <= a < kept@.len() implies kept@[a]
                                != self.slots@[j] by {
                                if a < prev.len() {
                                    assert(kept@[a] == prev[a]);
                                    assert(!(exists|b: int|
                                        #![trigger prev[b]]
                                        0 <= b < prev.len() && prev[b] == self.slots@[j]));
                                } else {
                                    assert(kept@[a] == self.slots@[i as int]);
                                    assert(slot_key(self.slots@[j]) != slot_key(
                                        self.slots@[i as int],
                                    ));
                                }
                            }
                        }
                    }
                }
            }
            i += 1;
        }
        self.slots = kept;
        proof {
            let older = *old(self);
            assert forall|key: (Seq<char>, u64)| #[trigger] self@.contains_key(key) implies (
            older@.contains_key(key) && elapsed_seconds(older@[key], now) < max_age_seconds
                && self@[key] == older@[key]) by {
                let a = choose|a: int|
                    0 <= a < self.slots@.len() && slot_key(self.slots@[a]) == key;
                self.lemma_slot_view(a);
                let j = choose|j: int|
                    0 <= j < older.slots@.len() && self.slots@[a] == older.slots@[j];
                assert(slot_key(older.slots@[j]) == key);
                older.lemma_slot_view(j);
            }
            assert forall|key: (Seq<char>, u64)|
                older@.contains_key(key) && elapsed_seconds(older@[key], now)
                    < max_age_seconds implies #[trigger] self@.contains_key(key) by {
                let j = choose|j: int|
                    0 <= j < older.slots@.len() && slot_key(older.slots@[j]) == key;
                older.lemma_slot_view(j);
                assert(elapsed_seconds(older.slots@[j].last_used, now) < max_age_seconds);
                let a = choose|a: int|
                    0 <= a < self.slots@.len() && self.slots@[a] == older.slots@[j];
                assert(slot_key(self.slots@[a]) == key);
            }
            assert(self@ =~= cooldown_after_cleanup(older@, max_age_seconds, now));
        }
    }
}

impl Default for CooldownManager {
    /// An empty tracker.
    fn default() -> (r: Self)
        ensures
            r.wf(),
            r@ == Map::<(Seq<char>, u64), u64>::empty(),
    {
        CooldownManager::new()
    }
}

/// Throttle correctness: after an allowed call records time `t1`, a second
/// call on the same key strictly inside the window is refused and leaves the
/// recorded time at `t1`, while a second call at or past the window is
/// allowed and records `t2`.
pub proof fn lemma_throttle_correctness(
    m: Map<(Seq<char>, u64), u64>,
    key: (Seq<char>, u64),
    window: u64,
    t1: u64,
    t2: u64,
)
    requires
        window > 0,
        t1 <= t2,
        cooldown_allows(m, key, window, t1),
    ensures
        ({
            let m1 = cooldown_after_check(m, key, window, t1);
            &&& m1[key] == t1
            &&& t2 - t1 < window ==> !cooldown_allows(m1, key, window, t2)
                && cooldown_after_check(m1, key, window, t2) == m1
            &&& t2 - t1 >= window ==> cooldown_allows(m1, key, window, t2)
                && cooldown_after_check(m1, key, window, t2)[key] == t2
        }),
{
}

/// Independence: a check on one key neither changes another key's record nor
/// that key's own throttling decision.
pub proof fn lemma_key_independence(
    m: Map<(Seq<char>, u64), u64>,
    k1: (Seq<char>, u64),
    k2: (Seq<char>, u64),
    w1: u64,
    w2: u64,
    t1: u64,
    t2: u64,
)
    requires
        k1 != k2,
    ensures
        ({
            let m1 = cooldown_after_check(m, k1, w1, t1);
            &&& m1.contains_key(k2) == m.contains_key(k2)
            &&& m1.contains_key(k2) ==> m1[k2] == m[k2]
            &&& cooldown_allows(m1, k2, w2, t2) == cooldown_allows(m, k2, w2, t2)
        }),
{
}

/// A zero-length window never throttles, whatever is recorded.
pub proof fn lemma_zero_window(m: Map<(Seq<char>, u64), u64>, key: (Seq<char>, u64), now: u64)
    ensures
        cooldown_allows(m, key, 0, now),
{
}

/// Sweep: cleanup removes an entry older than the given horizon and keeps a
/// younger one unchanged.
pub proof fn lemma_sweep(m: Map<(Seq<char>, u64), u64>, key: (Seq<char>, u64), max_age: u64, now: u64)
    requires
        m.contains_key(key),
    ensures
        elapsed_seconds(m[key], now) > max_age ==> !cooldown_after_cleanup(
            m,
            max_age,
            now,
        ).contains_key(key),
        elapsed_seconds(m[key], now) < max_age ==> cooldown_after_cleanup(
            m,
            max_age,
            now,
        ).contains_key(key) && cooldown_after_cleanup(m, max_age, now)[key] == m[key],
{
}

} // verus!
