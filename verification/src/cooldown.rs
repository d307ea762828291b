//! Rate limiting per member and command.
//!
//! Times are milliseconds on a clock of the caller's choosing. A use is
//! permitted when the pair of member and command has no stamp yet, or when
//! at least the cooldown has passed since its stamp.

use vstd::prelude::*;
use crate::commands::Command;

verus! {

/// The cooldown of a manager made by `CooldownManager::new`, in milliseconds.
pub const DEFAULT_COOLDOWN_MILLIS: u64 = 60000;

/// Whether a use at `now` is permitted, given the stamp of the last permitted use.
pub open spec fn permitted(last: Option<u64>, now: u64, cooldown: u64) -> bool {
    match last {
        None => true,
        Some(stamp) => now - stamp >= cooldown,
    }
}

/// The stamp that `stamps` holds for a member and a command.
pub open spec fn last_use(stamps: Map<(u64, Command), u64>, user_id: u64, command: Command) -> Option<u64> {
    if stamps.dom().contains((user_id, command)) {
        Some(stamps[(user_id, command)])
    } else {
        None
    }
}

/// The stamps after a use at `now` was asked for: a permitted use is stamped,
/// a refused one changes nothing.
pub open spec fn stamps_after(
    stamps: Map<(u64, Command), u64>,
    user_id: u64,
    command: Command,
    now: u64,
    cooldown: u64,
) -> Map<(u64, Command), u64> {
    if permitted(last_use(stamps, user_id, command), now, cooldown) {
        stamps.insert((user_id, command), now)
    } else {
        stamps
    }
}

/// When a member last used a command.
#[derive(Clone, Copy, Debug)]
pub struct CooldownEntry {
    user_id: u64,
    command: Command,
    last_used: u64,
}

/// The stamps of all members and commands, with one cooldown for all.
#[derive(Debug)]
pub struct CooldownManager {
    cooldown: u64,
    entries: Vec<CooldownEntry>,
}

impl CooldownManager {
    /// No pair of member and command has two entries.
    pub closed spec fn wf(&self) -> bool {
        forall|i: int, j: int|
            0 <= i < j < self.entries@.len() ==> !(self.entries@[i].user_id == self.entries@[j].user_id
                && self.entries@[i].command == self.entries@[j].command)
    }

    /// The cooldown in milliseconds.
    pub closed spec fn cooldown(&self) -> u64 {
        self.cooldown
    }

    spec fn holds(&self, key: (u64, Command), i: int) -> bool {
        0 <= i < self.entries@.len() && self.entries@[i].user_id == key.0 && self.entries@[i].command == key.1
    }

    /// The stamp of each pair of member and command that has one.
    pub closed spec fn stamps(&self) -> Map<(u64, Command), u64> {
        Map::new(
            |key: (u64, Command)| exists|i: int| self.holds(key, i),
            |key: (u64, Command)| self.entries@[choose|i: int| self.holds(key, i)].last_used,
        )
    }

    /// A manager without stamps and with the default cooldown.
    pub fn new() -> (manager: Self)
        ensures
            manager.wf(),
            manager.cooldown() == DEFAULT_COOLDOWN_MILLIS,
            manager.stamps() == Map::<(u64, Command), u64>::empty(),
    {
        Self::with_cooldown(DEFAULT_COOLDOWN_MILLIS)
    }

    /// A manager without stamps and with the given cooldown.
    pub fn with_cooldown(millis: u64) -> (manager: Self)
        ensures
            manager.wf(),
            manager.cooldown() == millis,
            manager.stamps() == Map::<(u64, Command), u64>::empty(),
    {
        let manager = CooldownManager { cooldown: millis, entries: Vec::new() };
        assert(manager.stamps() =~= Map::<(u64, Command), u64>::empty());
        manager
    }

    /// The cooldown in milliseconds.
    pub fn cooldown_millis(&self) -> (millis: u64)
        ensures
            millis == self.cooldown(),
    {
        self.cooldown
    }

    /// The index of the entry of a member and a command, or the number of
    /// entries when there is none.
    fn find(&self, user_id: u64, command: Command) -> (i: usize)
        requires
            self.wf(),
        ensures
            i <= self.entries@.len(),
            i < self.entries@.len() ==> self.holds((user_id, command), i as int),
            i == self.entries@.len() ==> forall|j: int| !self.holds((user_id, command), j),
            last_use(self.stamps(), user_id, command) == if i < self.entries@.len() {
                Some(self.entries@[i as int].last_used)
            } else {
                None
            },
    {
        let mut i: usize = 0;
        while i < self.entries.len()
            invariant
                self.wf(),
                i <= self.entries@.len(),
                forall|j: int| 0 <= j < i ==> !self.holds((user_id, command), j),
            decreases self.entries@.len() - i,
        {
            if self.entries[i].user_id == user_id && self.entries[i].command == command {
                proof {
                    assert(self.holds((user_id, command), i as int));
                    let c = choose|j: int| self.holds((user_id, command), j);
                    assert(c == i);
                }
                return i;
            }
            i += 1;
        }
        i
    }

    /// When the member last used the command with permission.
    pub fn last_used(&self, user_id: u64, command: Command) -> (stamp: Option<u64>)
        requires
            self.wf(),
        ensures
            stamp == last_use(self.stamps(), user_id, command),
    {
        let i = self.find(user_id, command);
        if i < self.entries.len() {
            Some(self.entries[i].last_used)
        } else {
            None
        }
    }

    /// Asks for a use of `command` by `user_id` at time `now`. Returns whether
    /// it is permitted; a permitted use is stamped with `now` in the same
    /// step, a refused one leaves every stamp as it was.
    pub fn check_and_record(&mut self, user_id: u64, command: Command, now: u64) -> (allowed: bool)
        requires
            old(self).wf(),
        ensures
            final(self).wf(),
            final(self).cooldown() == old(self).cooldown(),
            allowed == permitted(last_use(old(self).stamps(), user_id, command), now, old(self).cooldown()),
            final(self).stamps() == stamps_after(old(self).stamps(), user_id, command, now, old(self).cooldown()),
            !allowed ==> *final(self) == *old(self),
    {
        let i = self.find(user_id, command);
        let entry = CooldownEntry { user_id, command, last_used: now };
        let ghost key = (user_id, command);
        if i < self.entries.len() {
            let stamp = self.entries[i].last_used;
            if now < stamp || now - stamp < self.cooldown {
                return false;
            }
            self.entries.set(i, entry);
            proof {
                assert(old(self).holds(key, i as int));
                assert forall|a: int, b: int| 0 <= a < b < self.entries@.len() implies !(self.entries@[a].user_id
                    == self.entries@[b].user_id && self.entries@[a].command == self.entries@[b].command) by {
                    assert(old(self).entries@[a].user_id == self.entries@[a].user_id);
                    assert(old(self).entries@[b].user_id == self.entries@[b].user_id);
                    assert(old(self).entries@[a].command == self.entries@[a].command);
                    assert(old(self).entries@[b].command == self.entries@[b].command);
                }
                assert forall|k: (u64, Command)| #[trigger]
                    self.stamps().dom().contains(k) <==> old(self).stamps().insert(key, now).dom().contains(
                        k,
                    ) by {
                    if self.stamps().dom().contains(k) {
                        let j = choose|j: int| self.holds(k, j);
                        assert(old(self).holds(k, j));
                    }
                    if old(self).stamps().dom().contains(k) {
                        let j = choose|j: int| old(self).holds(k, j);
                        assert(self.holds(k, j));
                    }
                    if k == key {
                        assert(self.holds(k, i as int));
                    }
                }
                assert forall|k: (u64, Command)| #[trigger]
                    self.stamps().dom().contains(k) implies self.stamps()[k] == old(self).stamps().insert(
                    key,
                    now,
                )[k] by {
                    let j = choose|j: int| self.holds(k, j);
                    assert(old(self).holds(k, j));
                    let j0 = choose|j: int| old(self).holds(k, j);
                    assert(j0 == j);
                }
                assert(self.stamps() =~= old(self).stamps().insert(key, now));
            }
        } else {
            self.entries.push(entry);
            proof {
                let n = old(self).entries@.len() as int;
                assert(self.holds(key, n));
                assert forall|a: int, b: int| 0 <= a < b < self.entries@.len() implies !(self.entries@[a].user_id
                    == self.entries@[b].user_id && self.entries@[a].command == self.entries@[b].command) by {
                    if b == n {
                        assert(!old(self).holds(key, a));
                    } else {
                        assert(old(self).entries@[a] == self.entries@[a]);
                        assert(old(self).entries@[b] == self.entries@[b]);
                    }
                }
                assert forall|k: (u64, Command)| #[trigger]
                    self.stamps().dom().contains(k) <==> old(self).stamps().insert(key, now).dom().contains(
                        k,
                    ) by {
                    if self.stamps().dom().contains(k) {
                        let j = choose|j: int| self.holds(k, j);
                        if j < n {
                            assert(old(self).holds(k, j));
                        }
                    }
                    if old(self).stamps().dom().contains(k) {
                        let j = choose|j: int| old(self).holds(k, j);
                        assert(self.holds(k, j));
                    }
                }
                assert forall|k: (u64, Command)| #[trigger]
                    self.stamps().dom().contains(k) implies self.stamps()[k] == old(self).stamps().insert(
                    key,
                    now,
                )[k] by {
                    let j = choose|j: int| self.holds(k, j);
                    if j < n {
                        assert(old(self).holds(k, j));
                        let j0 = choose|j: int| old(self).holds(k, j);
                        assert(j0 == j);
                    }
                }
                assert(self.stamps() =~= old(self).stamps().insert(key, now));
            }
        }
        true
    }
}

/// A first use is permitted, every use in the cooldown window after it is
/// refused and leaves the stamp alone, and a use at the end of the window or
/// later is permitted again.
pub proof fn lemma_cooldown_window(
    stamps: Map<(u64, Command), u64>,
    user_id: u64,
    command: Command,
    cooldown: u64,
    first: u64,
    during: u64,
    after: u64,
)
    requires
        last_use(stamps, user_id, command) is None,
        first <= during < first + cooldown,
        first + cooldown <= after,
    ensures
        permitted(last_use(stamps, user_id, command), first, cooldown),
        ({
            let stamped = stamps_after(stamps, user_id, command, first, cooldown);
            &&& last_use(stamped, user_id, command) == Some(first)
            &&& !permitted(last_use(stamped, user_id, command), during, cooldown)
            &&& stamps_after(stamped, user_id, command, during, cooldown) == stamped
            &&& permitted(last_use(stamped, user_id, command), after, cooldown)
        }),
{
}

/// A use of one pair of member and command never changes what is permitted
/// to another pair.
pub proof fn lemma_cooldown_keys_independent(
    stamps: Map<(u64, Command), u64>,
    user_id: u64,
    command: Command,
    other_user: u64,
    other_command: Command,
    now: u64,
    cooldown: u64,
)
    requires
        (user_id, command) != (other_user, other_command),
    ensures
        last_use(stamps_after(stamps, user_id, command, now, cooldown), other_user, other_command) == last_use(
            stamps,
            other_user,
            other_command,
        ),
{
}

} // verus!
