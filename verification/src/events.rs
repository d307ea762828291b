//! What a change of a member's voice state asks for.

use vstd::prelude::*;

verus! {

/// The flows that a change of voice state starts: a join of the channel
/// that was entered, and a leave of the one that was left.
#[derive(Clone, Copy, Debug, PartialEq, Eq, Structural)]
pub struct VoiceUpdatePlan {
    pub join: Option<u64>,
    pub leave: Option<u64>,
}

/// The channel that the member was in before the change; `old_state` is
/// the channel of the earlier voice state, if there was such a state.
pub open spec fn channel_before(old_state: Option<Option<u64>>) -> Option<u64> {
    match old_state {
        Some(channel) => channel,
        None => None,
    }
}

/// Nothing is started when the channel did not change or the member is not
/// known. Otherwise the channel that was entered, if any, is joined, and the
/// channel that was left, if any, is left.
pub open spec fn voice_update_plan(
    old_state: Option<Option<u64>>,
    new_channel_id: Option<u64>,
    member_known: bool,
) -> VoiceUpdatePlan {
    if channel_before(old_state) == new_channel_id || !member_known {
        VoiceUpdatePlan { join: None, leave: None }
    } else {
        VoiceUpdatePlan { join: new_channel_id, leave: channel_before(old_state) }
    }
}

/// Decides which flows a change of a member's voice state starts.
pub fn voice_state_update(old_state: Option<Option<u64>>, new_channel_id: Option<u64>, member_known: bool) -> (plan:
    VoiceUpdatePlan)
    ensures
        plan == voice_update_plan(old_state, new_channel_id, member_known),
{
    let before = match old_state {
        Some(channel) => channel,
        None => None,
    };
    let same = match (before, new_channel_id) {
        (Some(a), Some(b)) => a == b,
        (None, None) => true,
        _ => false,
    };
    if same || !member_known {
        VoiceUpdatePlan { join: None, leave: None }
    } else {
        VoiceUpdatePlan { join: new_channel_id, leave: before }
    }
}

} // verus!
