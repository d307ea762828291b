//! The state that the event handler keeps between events.

use vstd::prelude::*;
use crate::commands::Command;
use crate::cooldown::{CooldownManager, DEFAULT_COOLDOWN_MILLIS, last_use, permitted, stamps_after};

verus! {

/// The event handler's own state: the cooldowns of the commands it gates.
#[derive(Debug)]
pub struct Handler {
    cooldown_manager: CooldownManager,
}

impl Handler {
    /// The cooldown manager is well-formed.
    pub closed spec fn wf(&self) -> bool {
        self.cooldown_manager.wf()
    }

    /// The handler's cooldown manager.
    pub closed spec fn cooldowns(&self) -> CooldownManager {
        self.cooldown_manager
    }

    /// A handler whose cooldown manager has no stamps and the default cooldown.
    pub fn new() -> (handler: Self)
        ensures
            handler.wf(),
            handler.cooldowns().cooldown() == DEFAULT_COOLDOWN_MILLIS,
            handler.cooldowns().stamps() == Map::<(u64, Command), u64>::empty(),
    {
        Self { cooldown_manager: CooldownManager::new() }
    }

    /// Asks the cooldown manager for a use of `command` by `user_id` at `now`.
    pub fn check_and_record(&mut self, user_id: u64, command: Command, now: u64) -> (allowed: bool)
        requires
            old(self).wf(),
        ensures
            final(self).wf(),
            final(self).cooldowns().cooldown() == old(self).cooldowns().cooldown(),
            allowed == permitted(
                last_use(old(self).cooldowns().stamps(), user_id, command),
                now,
                old(self).cooldowns().cooldown(),
            ),
            final(self).cooldowns().stamps() == stamps_after(
                old(self).cooldowns().stamps(),
                user_id,
                command,
                now,
                old(self).cooldowns().cooldown(),
            ),
    {
        self.cooldown_manager.check_and_record(user_id, command, now)
    }
}

} // verus!
