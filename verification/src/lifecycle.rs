//! The lifecycle of temporary channels: joins of a trigger channel, leaves,
//! deletions and clean-up.
//!
//! The manager owns the store and the numbers reserved for joins that are
//! under way. Each of its operations is one exclusive step on that state;
//! the calls to the platform happen between steps, in the caller's hands.

use vstd::prelude::*;
use crate::flow::{
    JoinError, JoinStep, JoinTicket, LeaveStep, PlatformReply, ReplyView, Reservation, StepView, TicketParts,
    TicketView,
};
use crate::model::{
    ChannelRequest, ChannelView, ConfigView, CreatorVoiceConfig, RequestView, SettingsView, TemporaryVoiceChannel,
    TriggerChannelSettings, DEFAULT_BITRATE,
};
use crate::numbers::{is_exhausted, is_highest, is_smallest_free, lemma_smallest_free_exists, MAX_NUMBER};
use crate::permissions::{owner_overwrite, owner_overwrite_spec};
use crate::store::{Store, StoreView};
use crate::template::{get_name_from_template, render, Presence};

verus! {

/// What a manager holds, as plain mathematical values.
#[verifier::ext_equal]
pub struct ManagerView {
    pub store: StoreView,
    pub pending: Set<Reservation>,
}

impl ManagerView {
    /// The numbers in use by the configuration of a trigger channel; none
    /// when it has no configuration.
    pub open spec fn numbers_of(self, creator_id: u64) -> Set<int> {
        if self.store.configs.dom().contains(creator_id) {
            self.store.configs[creator_id].numbers
        } else {
            Set::empty()
        }
    }

    /// The numbers reserved for joins under way on a trigger channel.
    pub open spec fn reserved_for(self, creator_id: u64) -> Set<int> {
        Set::new(
            |n: int| 1 <= n <= MAX_NUMBER && self.pending.contains(Reservation { creator_id, number: n as u16 }),
        )
    }

    /// The numbers that a new join on a trigger channel cannot have.
    pub open spec fn taken(self, creator_id: u64) -> Set<int> {
        self.numbers_of(creator_id).union(self.reserved_for(creator_id))
    }

    /// The store is well-formed, and every reserved number is positive and
    /// not in use by its trigger channel's configuration.
    pub open spec fn wf(self) -> bool {
        &&& self.store.wf()
        &&& self.pending.finite()
        &&& forall|r: Reservation| #[trigger]
            self.pending.contains(r) ==> r.number >= 1 && !self.numbers_of(r.creator_id).contains(r.number as int)
    }

    /// The same state without the reservation of `ticket`.
    pub open spec fn release(self, ticket: TicketView) -> ManagerView {
        ManagerView { pending: self.pending.remove(ticket.reservation()), ..self }
    }
}

/// The smallest positive integer that `used` does not hold.
pub open spec fn smallest_free(used: Set<int>) -> int {
    choose|n: int| is_smallest_free(used, n)
}

/// A set has at most one smallest free number.
pub proof fn lemma_smallest_free_unique(used: Set<int>, a: int, b: int)
    requires
        is_smallest_free(used, a),
        is_smallest_free(used, b),
    ensures
        a == b,
{
    if a < b {
        assert(used.contains(a));
    }
    if b < a {
        assert(used.contains(b));
    }
}

/// The channel to create for a ticket, given the trigger channel's live
/// settings: it takes the trigger channel's overwrites and adds the owner's,
/// takes the trigger channel's bitrate, user limit and age restriction where
/// set, and stands at the position of its number.
pub open spec fn request_for(ticket: TicketView, settings: SettingsView) -> RequestView {
    RequestView {
        name: ticket.name,
        category_id: ticket.category_id,
        position: ticket.number,
        user_limit: match settings.user_limit {
            Some(limit) => limit,
            None => ticket.user_limit,
        },
        bitrate: match settings.bitrate {
            Some(bitrate) => bitrate,
            None => DEFAULT_BITRATE,
        },
        nsfw: settings.nsfw,
        permission_overwrites: settings.permission_overwrites.push(owner_overwrite_spec(ticket.owner_id)),
    }
}

/// The record of the channel that a join created.
pub open spec fn record_of(ticket: TicketView, channel_id: u64) -> ChannelView {
    ChannelView {
        guild_id: ticket.guild_id,
        channel_id,
        creator_id: ticket.creator_id,
        owner_id: ticket.owner_id,
        name: ticket.name,
        template_name: ticket.template_name,
        number: ticket.number,
    }
}

/// The first step of a join, and the state after it. A channel without
/// configuration is not applicable. Otherwise the join is given the smallest
/// number that is neither in use nor reserved, which is reserved in the same
/// step; when there is none, the join fails before any call to the platform.
pub open spec fn join_begins(
    m: ManagerView,
    trigger_channel_id: u64,
    owner_id: u64,
    owner_name: Seq<char>,
    presence: Presence,
) -> (ManagerView, StepView) {
    if !m.store.configs.dom().contains(trigger_channel_id) {
        (m, StepView::NotApplicable)
    } else {
        let config = m.store.configs[trigger_channel_id];
        let taken = m.taken(trigger_channel_id);
        if is_exhausted(taken) {
            (m, StepView::Disconnect { guild_id: config.guild_id, owner_id, error: JoinError::Exhausted })
        } else {
            let number = smallest_free(taken) as u16;
            let ticket = TicketView {
                guild_id: config.guild_id,
                creator_id: trigger_channel_id,
                category_id: config.category_id,
                owner_id,
                number,
                name: render(config.naming_standard, number as nat, presence, owner_name),
                template_name: config.naming_standard,
                user_limit: config.user_limit,
            };
            (
                ManagerView {
                    pending: m.pending.insert(Reservation { creator_id: trigger_channel_id, number }),
                    ..m
                },
                StepView::FetchTrigger { ticket },
            )
        }
    }
}

/// A join given up before a channel exists: the number is released and the
/// member is to be disconnected.
pub open spec fn abandoned(m: ManagerView, ticket: TicketView, error: JoinError) -> (ManagerView, StepView) {
    (m.release(ticket), StepView::Disconnect { guild_id: ticket.guild_id, owner_id: ticket.owner_id, error })
}

/// A join given up after its channel was created: the number is released
/// and the channel is to be deleted.
pub open spec fn undone(m: ManagerView, ticket: TicketView, channel_id: u64, error: JoinError) -> (
    ManagerView,
    StepView,
) {
    (
        m.release(ticket),
        StepView::Rollback { guild_id: ticket.guild_id, channel_id, owner_id: ticket.owner_id, error },
    )
}

/// A join whose member is in the new channel. The number goes from reserved
/// to in use, and the channel gets its record, in one step. When the number
/// is the highest in use, the trigger channel is to be moved below it.
pub open spec fn completed(m: ManagerView, ticket: TicketView, channel_id: u64) -> (ManagerView, StepView) {
    if !m.pending.contains(ticket.reservation()) {
        (
            m,
            StepView::Rollback {
                guild_id: ticket.guild_id,
                channel_id,
                owner_id: ticket.owner_id,
                error: JoinError::UnknownTicket,
            },
        )
    } else if !m.store.configs.dom().contains(ticket.creator_id) {
        undone(m, ticket, channel_id, JoinError::ConfigMissing)
    } else {
        let config = m.store.configs[ticket.creator_id];
        let numbers = config.numbers.insert(ticket.number as int);
        let store = StoreView {
            configs: m.store.configs.insert(ticket.creator_id, config.with_numbers(numbers)),
            channels: m.store.channels.insert(channel_id, record_of(ticket, channel_id)),
        };
        let after = ManagerView { store, pending: m.pending.remove(ticket.reservation()) };
        if is_highest(numbers, ticket.number as int) && ticket.number < MAX_NUMBER {
            (
                after,
                StepView::Reposition {
                    channel_id,
                    trigger_channel_id: ticket.creator_id,
                    position: (ticket.number + 1) as u16,
                },
            )
        } else {
            (after, StepView::Joined { channel_id })
        }
    }
}

/// The step that follows `step` when the platform answers `reply`, and the
/// state after it.
pub open spec fn after_join_reply(m: ManagerView, step: StepView, reply: ReplyView) -> (ManagerView, StepView) {
    match step {
        StepView::FetchTrigger { ticket } => match reply {
            ReplyView::TriggerChannel(settings) => (
                m,
                StepView::CreateChannel { ticket, request: request_for(ticket, settings) },
            ),
            ReplyView::GuildChannelsUnavailable => abandoned(m, ticket, JoinError::GuildChannelsUnavailable),
            ReplyView::TriggerChannelMissing => abandoned(m, ticket, JoinError::CreatorChannelMissing),
            _ => abandoned(m, ticket, JoinError::UnexpectedReply),
        },
        StepView::CreateChannel { ticket, request } => match reply {
            ReplyView::ChannelCreated(channel_id) => (m, StepView::MoveMember { ticket, channel_id }),
            ReplyView::Failed => abandoned(m, ticket, JoinError::CreateFailed),
            _ => abandoned(m, ticket, JoinError::UnexpectedReply),
        },
        StepView::MoveMember { ticket, channel_id } => match reply {
            ReplyView::Done => completed(m, ticket, channel_id),
            ReplyView::Failed => undone(m, ticket, channel_id, JoinError::MoveFailed),
            _ => undone(m, ticket, channel_id, JoinError::UnexpectedReply),
        },
        StepView::Rollback { guild_id, channel_id, owner_id, error } => (
            m,
            StepView::Disconnect { guild_id, owner_id, error },
        ),
        StepView::Disconnect { guild_id, owner_id, error } => (m, StepView::Failed { error }),
        StepView::Reposition { channel_id, trigger_channel_id, position } => (m, StepView::Joined { channel_id }),
        StepView::NotApplicable => (m, step),
        StepView::Joined { channel_id } => (m, step),
        StepView::Failed { error } => (m, step),
    }
}

/// The state after the clean-up of a channel: its number is released in
/// its trigger channel's configuration, if that still exists, and its
/// record is removed. A channel without record changes nothing.
pub open spec fn after_cleanup(m: ManagerView, channel_id: u64) -> ManagerView {
    if !m.store.channels.dom().contains(channel_id) {
        m
    } else {
        let record = m.store.channels[channel_id];
        let configs = if m.store.configs.dom().contains(record.creator_id) {
            let config = m.store.configs[record.creator_id];
            m.store.configs.insert(
                record.creator_id,
                config.with_numbers(config.numbers.remove(record.number as int)),
            )
        } else {
            m.store.configs
        };
        ManagerView { store: StoreView { configs, channels: m.store.channels.remove(channel_id) }, ..m }
    }
}

/// What the deletion of a channel on the platform meant to the manager.
#[derive(Clone, Copy, Debug, PartialEq, Eq, Structural)]
pub enum DeletionOutcome {
    /// The channel was a temporary channel; it is cleaned up.
    TemporaryChannelRemoved,
    /// The channel was a trigger channel; its configuration is removed.
    CreatorConfigRemoved,
    /// The channel was neither.
    Untracked,
}

/// The state after the platform reported that a channel is gone, and what
/// the channel was.
pub open spec fn after_channel_deleted(m: ManagerView, channel_id: u64) -> (ManagerView, DeletionOutcome) {
    if m.store.channels.dom().contains(channel_id) {
        (after_cleanup(m, channel_id), DeletionOutcome::TemporaryChannelRemoved)
    } else if m.store.configs.dom().contains(channel_id) {
        (
            ManagerView { store: StoreView { configs: m.store.configs.remove(channel_id), ..m.store }, ..m },
            DeletionOutcome::CreatorConfigRemoved,
        )
    } else {
        (m, DeletionOutcome::Untracked)
    }
}

/// How many of the voice states are in the channel.
pub open spec fn occupants(states: Seq<Option<u64>>, channel_id: u64) -> nat {
    states.filter(|state: Option<u64>| state == Some(channel_id)).len()
}

/// The first step of a leave: only a temporary channel is looked at.
pub open spec fn leave_begins(m: ManagerView, old_channel_id: Option<u64>) -> LeaveStep {
    match old_channel_id {
        Some(channel_id) => if m.store.channels.dom().contains(channel_id) {
            LeaveStep::CountMembers { channel_id }
        } else {
            LeaveStep::Ignore
        },
        None => LeaveStep::Ignore,
    }
}

/// The step that follows `step` of a leave when the platform answers
/// `reply`, and the state after it. An empty channel is deleted; once the
/// platform confirms the deletion the channel is cleaned up. In every other
/// case the channel and its record stay.
pub open spec fn after_leave_reply(m: ManagerView, step: LeaveStep, reply: ReplyView) -> (ManagerView, LeaveStep) {
    match step {
        LeaveStep::CountMembers { channel_id } => match reply {
            ReplyView::VoiceStates(states) => if occupants(states, channel_id) == 0 {
                (m, LeaveStep::DeleteChannel { channel_id })
            } else {
                (m, LeaveStep::Kept { channel_id })
            },
            _ => (m, LeaveStep::Kept { channel_id }),
        },
        LeaveStep::DeleteChannel { channel_id } => match reply {
            ReplyView::Done => (after_cleanup(m, channel_id), LeaveStep::Cleaned { channel_id }),
            _ => (m, LeaveStep::Kept { channel_id }),
        },
        _ => (m, step),
    }
}

/// Whether `reservation` is among `pending`.
fn holds(pending: &Vec<Reservation>, reservation: Reservation) -> (found: bool)
    ensures
        found == pending@.to_set().contains(reservation),
{
    let mut i: usize = 0;
    while i < pending.len()
        invariant
            i <= pending@.len(),
            forall|j: int| 0 <= j < i ==> pending@[j] != reservation,
        decreases pending@.len() - i,
    {
        if pending[i] == reservation {
            assert(pending@.contains(reservation));
            return true;
        }
        i += 1;
    }
    false
}

/// Adds a reservation that is not among `pending`.
fn add_reservation(pending: &mut Vec<Reservation>, reservation: Reservation)
    requires
        old(pending)@.no_duplicates(),
        !old(pending)@.to_set().contains(reservation),
    ensures
        final(pending)@.no_duplicates(),
        final(pending)@.to_set() == old(pending)@.to_set().insert(reservation),
{
    pending.push(reservation);
    proof {
        let before = old(pending)@;
        let after = pending@;
        assert(after[before.len() as int] == reservation);
        assert forall|r: Reservation| after.to_set().contains(r) <==> before.to_set().insert(reservation).contains(
            r,
        ) by {
            if after.contains(r) {
                let j = choose|j: int| 0 <= j < after.len() && after[j] == r;
                if j < before.len() {
                    assert(before[j] == r);
                }
            }
            if before.contains(r) {
                let j = choose|j: int| 0 <= j < before.len() && before[j] == r;
                assert(after[j] == r);
            }
        }
        assert(after.to_set() =~= before.to_set().insert(reservation));
    }
}

/// Removes a reservation, if it is among `pending`.
fn drop_reservation(pending: &mut Vec<Reservation>, reservation: Reservation)
    requires
        old(pending)@.no_duplicates(),
    ensures
        final(pending)@.no_duplicates(),
        final(pending)@.to_set() == old(pending)@.to_set().remove(reservation),
{
    let mut i: usize = 0;
    while i < pending.len()
        invariant
            *pending == *old(pending),
            old(pending)@.no_duplicates(),
            i <= pending@.len(),
            forall|j: int| 0 <= j < i ==> pending@[j] != reservation,
        decreases pending@.len() - i,
    {
        if pending[i] == reservation {
            pending.remove(i);
            proof {
                let before = old(pending)@;
                let after = pending@;
                assert(after == before.remove(i as int));
                assert(before[i as int] == reservation);
                assert forall|a: int, b: int| 0 <= a < after.len() && 0 <= b < after.len() && a != b implies after[a]
                    != after[b] by {
                    let a0 = if a < i { a } else { a + 1 };
                    let b0 = if b < i { b } else { b + 1 };
                    assert(after[a] == before[a0]);
                    assert(after[b] == before[b0]);
                }
                assert forall|r: Reservation| after.to_set().contains(r) <==> before.to_set().remove(
                    reservation,
                ).contains(r) by {
                    if after.contains(r) {
                        let j = choose|j: int| 0 <= j < after.len() && after[j] == r;
                        let j0 = if j < i { j } else { j + 1 };
                        assert(before[j0] == r);
                    }
                    if before.contains(r) && r != reservation {
                        let j = choose|j: int| 0 <= j < before.len() && before[j] == r;
                        let j1 = if j < i { j } else { j - 1 };
                        assert(after[j1] == r);
                    }
                }
                assert(after.to_set() =~= before.to_set().remove(reservation));
            }
            return ;
        }
        i += 1;
    }
    assert(pending@.to_set() =~= old(pending)@.to_set().remove(reservation));
}

/// How many of the voice states are in the channel.
pub fn members_in_channel(states: &Vec<Option<u64>>, channel_id: u64) -> (count: usize)
    ensures
        count == occupants(states@, channel_id),
{
    let ghost in_channel = |state: Option<u64>| state == Some(channel_id);
    let mut count: usize = 0;
    let mut i: usize = 0;
    proof {
        reveal(Seq::filter);
        assert(states@.take(0).filter(in_channel) =~= Seq::<Option<u64>>::empty());
    }
    while i < states.len()
        invariant
            i <= states@.len(),
            count <= i,
            in_channel == |state: Option<u64>| state == Some(channel_id),
            count == states@.take(i as int).filter(in_channel).len(),
        decreases states@.len() - i,
    {
        proof {
            reveal(Seq::filter);
            assert(states@.take(i + 1).drop_last() =~= states@.take(i as int));
            assert(states@.take(i + 1).last() == states@[i as int]);
        }
        let inside = match states[i] {
            Some(id) => id == channel_id,
            None => false,
        };
        if inside {
            count += 1;
        }
        i += 1;
    }
    assert(states@.take(i as int) =~= states@);
    count
}

/// The channel to create for a ticket, given the trigger channel's live
/// settings.
pub fn channel_request(ticket: &JoinTicket, settings: TriggerChannelSettings) -> (request: ChannelRequest)
    ensures
        request@ == request_for(ticket@, settings@),
{
    let mut permission_overwrites = settings.permission_overwrites;
    permission_overwrites.push(owner_overwrite(ticket.owner_id()));
    let user_limit = match settings.user_limit {
        Some(limit) => limit,
        None => ticket.user_limit(),
    };
    let bitrate = match settings.bitrate {
        Some(bitrate) => bitrate,
        None => DEFAULT_BITRATE,
    };
    ChannelRequest {
        name: ticket.name().clone(),
        category_id: ticket.category_id(),
        position: ticket.number(),
        user_limit,
        bitrate,
        nsfw: settings.nsfw,
        permission_overwrites,
    }
}

/// The store together with the numbers reserved for joins under way.
#[derive(Debug)]
pub struct ChannelLifecycleManager {
    store: Store,
    pending: Vec<Reservation>,
}

impl View for ChannelLifecycleManager {
    type V = ManagerView;

    closed spec fn view(&self) -> ManagerView {
        ManagerView { store: self.store@, pending: self.pending@.to_set() }
    }
}

impl ChannelLifecycleManager {
    /// The store is well-formed, no reservation stands twice, and no
    /// reserved number is in use.
    pub closed spec fn wf(&self) -> bool {
        &&& self.store.wf()
        &&& self.pending@.no_duplicates()
        &&& self@.wf()
    }

    /// A well-formed manager has a well-formed view.
    pub proof fn lemma_view(&self)
        requires
            self.wf(),
        ensures
            self@.wf(),
    {
    }

    /// A manager of `store`, with no join under way.
    pub fn new(store: Store) -> (manager: Self)
        requires
            store.wf(),
        ensures
            manager.wf(),
            manager@ == (ManagerView { store: store@, pending: Set::<Reservation>::empty() }),
    {
        proof {
            store.lemma_view();
        }
        let manager = ChannelLifecycleManager { store, pending: Vec::new() };
        assert(manager@.pending =~= Set::<Reservation>::empty());
        manager
    }

    /// The store.
    pub fn store(&self) -> (store: &Store)
        requires
            self.wf(),
        ensures
            store.wf(),
            store@ == self@.store,
    {
        &self.store
    }

    /// How many joins are under way.
    pub fn pending_joins(&self) -> (count: usize)
        requires
            self.wf(),
        ensures
            count == self@.pending.len(),
    {
        proof {
            self.pending@.unique_seq_to_set();
        }
        self.pending.len()
    }

    /// Sets up a trigger channel, or changes its set-up. The numbers in use
    /// by a trigger channel that is already set up stay as they are.
    pub fn configure(
        &mut self,
        guild_id: u64,
        creator_id: u64,
        category_id: u64,
        naming_standard: String,
        user_limit: u32,
    )
        requires
            old(self).wf(),
        ensures
            final(self).wf(),
            final(self)@ == (ManagerView {
                store: StoreView {
                    configs: old(self)@.store.configs.insert(
                        creator_id,
                        ConfigView {
                            guild_id,
                            creator_id,
                            category_id,
                            naming_standard: naming_standard@,
                            user_limit,
                            numbers: old(self)@.numbers_of(creator_id),
                        },
                    ),
                    ..old(self)@.store
                },
                ..old(self)@
            }),
    {
        proof {
            self.store.lemma_view();
        }
        let config = match self.store.take_creator_voice_config(creator_id) {
            Some(mut config) => {
                config.update(guild_id, category_id, naming_standard, user_limit);
                config
            },
            None => CreatorVoiceConfig::new(guild_id, creator_id, category_id, naming_standard, user_limit),
        };
        self.store.set_creator_voice_config(config);
        proof {
            self.store.lemma_view();
            let expected = old(self)@.store.configs.insert(
                creator_id,
                ConfigView {
                    guild_id,
                    creator_id,
                    category_id,
                    naming_standard: naming_standard@,
                    user_limit,
                    numbers: old(self)@.numbers_of(creator_id),
                },
            );
            assert(self@.store.configs =~= expected);
            assert forall|r: Reservation| #[trigger] self@.pending.contains(r) implies r.number >= 1
                && !self@.numbers_of(r.creator_id).contains(r.number as int) by {
                assert(old(self)@.pending.contains(r));
            }
        }
    }

    /// The smallest number that a new join on the trigger channel can have.
    fn next_free_number(&self, config: &CreatorVoiceConfig, creator_id: u64) -> (next: Option<u16>)
        requires
            self.wf(),
            config.wf(),
            self@.store.configs.dom().contains(creator_id),
            config@ == self@.store.configs[creator_id],
        ensures
            match next {
                Some(n) => is_smallest_free(self@.taken(creator_id), n as int),
                None => is_exhausted(self@.taken(creator_id)),
            },
    {
        let mut n = match config.get_next_number() {
            None => {
                return None;
            },
            Some(n) => n,
        };
        loop
            invariant
                self.wf(),
                config.wf(),
                self@.store.configs.dom().contains(creator_id),
                config@ == self@.store.configs[creator_id],
                1 <= n <= MAX_NUMBER,
                forall|m: int| 1 <= m < n ==> self@.taken(creator_id).contains(m),
            decreases MAX_NUMBER - n,
        {
            let in_use = config.has_number(n);
            let reserved = holds(&self.pending, Reservation { creator_id, number: n });
            if !in_use && !reserved {
                return Some(n);
            }
            assert(self@.taken(creator_id).contains(n as int)) by {
                if reserved {
                    assert(self@.reserved_for(creator_id).contains(n as int));
                }
            }
            if n == MAX_NUMBER {
                return None;
            }
            n += 1;
        }
    }

    /// A member joined a channel. When the channel is a trigger channel, a
    /// join begins: a number is reserved for it and the channel's name is
    /// rendered. The store is not changed.
    pub fn on_member_join_trigger(
        &mut self,
        trigger_channel_id: u64,
        owner_id: u64,
        owner_name: &str,
        presence: Presence,
    ) -> (step: JoinStep)
        requires
            old(self).wf(),
        ensures
            final(self).wf(),
            final(self)@ == join_begins(old(self)@, trigger_channel_id, owner_id, owner_name@, presence).0,
            step@ == join_begins(old(self)@, trigger_channel_id, owner_id, owner_name@, presence).1,
            final(self)@.store == old(self)@.store,
    {
        let config = match self.store.get_creator_voice_config(trigger_channel_id) {
            None => {
                return JoinStep::NotApplicable;
            },
            Some(config) => config,
        };
        let guild_id = config.guild_id();
        let number = match self.next_free_number(config, trigger_channel_id) {
            None => {
                return JoinStep::Disconnect { guild_id, owner_id, error: JoinError::Exhausted };
            },
            Some(n) => n,
        };
        proof {
            lemma_smallest_free_unique(
                self@.taken(trigger_channel_id),
                number as int,
                smallest_free(self@.taken(trigger_channel_id)),
            );
        }
        let template = config.naming_standard();
        let name = get_name_from_template(template.as_str(), number, presence, owner_name);
        let ticket = JoinTicket::new(
            TicketParts {
                guild_id,
                creator_id: trigger_channel_id,
                category_id: config.category_id(),
                owner_id,
                number,
                name,
                template_name: template.clone(),
                user_limit: config.user_limit(),
            },
        );
        let reservation = Reservation { creator_id: trigger_channel_id, number };
        assert(!self@.pending.contains(reservation)) by {
            if self@.pending.contains(reservation) {
                assert(self@.reserved_for(trigger_channel_id).contains(number as int));
            }
        }
        add_reservation(&mut self.pending, reservation);
        proof {
            assert forall|r: Reservation| #[trigger] self@.pending.contains(r) implies r.number >= 1
                && !self@.numbers_of(r.creator_id).contains(r.number as int) by {
                if r != reservation {
                    assert(old(self)@.pending.contains(r));
                }
            }
        }
        JoinStep::FetchTrigger { ticket }
    }

    /// Gives up a join before a channel exists.
    fn abandon(&mut self, ticket: JoinTicket, error: JoinError) -> (next: JoinStep)
        requires
            old(self).wf(),
        ensures
            final(self).wf(),
            final(self)@ == abandoned(old(self)@, ticket@, error).0,
            next@ == abandoned(old(self)@, ticket@, error).1,
    {
        self.release(&ticket);
        JoinStep::Disconnect { guild_id: ticket.guild_id(), owner_id: ticket.owner_id(), error }
    }

    /// Gives up a join after its channel was created.
    fn undo(&mut self, ticket: JoinTicket, channel_id: u64, error: JoinError) -> (next: JoinStep)
        requires
            old(self).wf(),
        ensures
            final(self).wf(),
            final(self)@ == undone(old(self)@, ticket@, channel_id, error).0,
            next@ == undone(old(self)@, ticket@, channel_id, error).1,
    {
        self.release(&ticket);
        JoinStep::Rollback { guild_id: ticket.guild_id(), channel_id, owner_id: ticket.owner_id(), error }
    }

    /// Releases the number that a ticket holds.
    fn release(&mut self, ticket: &JoinTicket)
        requires
            old(self).wf(),
        ensures
            final(self).wf(),
            final(self)@ == old(self)@.release(ticket@),
    {
        drop_reservation(&mut self.pending, ticket.reservation());
        proof {
            assert forall|r: Reservation| #[trigger] self@.pending.contains(r) implies r.number >= 1
                && !self@.numbers_of(r.creator_id).contains(r.number as int) by {
                assert(old(self)@.pending.contains(r));
            }
        }
    }

    /// Completes a join whose member is in the new channel.
    fn complete(&mut self, ticket: JoinTicket, channel_id: u64) -> (next: JoinStep)
        requires
            old(self).wf(),
        ensures
            final(self).wf(),
            final(self)@ == completed(old(self)@, ticket@, channel_id).0,
            next@ == completed(old(self)@, ticket@, channel_id).1,
    {
        let reservation = ticket.reservation();
        if !holds(&self.pending, reservation) {
            return JoinStep::Rollback {
                guild_id: ticket.guild_id(),
                channel_id,
                owner_id: ticket.owner_id(),
                error: JoinError::UnknownTicket,
            };
        }
        proof {
            self.store.lemma_view();
        }
        let mut config = match self.store.take_creator_voice_config(reservation.creator_id) {
            None => {
                return self.undo(ticket, channel_id, JoinError::ConfigMissing);
            },
            Some(config) => config,
        };
        drop_reservation(&mut self.pending, reservation);
        let added = config.add_number(reservation.number);
        assert(added) by {
            assert(old(self)@.pending.contains(reservation));
        }
        let highest = config.get_highest_number();
        let ghost numbers = config@.numbers;
        assert(highest is Some) by {
            assert(numbers.contains(reservation.number as int));
        }
        self.store.set_creator_voice_config(config);
        let parts = ticket.into_parts();
        let record = TemporaryVoiceChannel::new(
            parts.guild_id,
            channel_id,
            parts.creator_id,
            parts.owner_id,
            parts.name,
            parts.template_name,
            parts.number,
        );
        self.store.set_temporary_voice_channel(record);
        proof {
            self.store.lemma_view();
            let config_before = old(self)@.store.configs[reservation.creator_id];
            assert(self@.store.configs =~= old(self)@.store.configs.insert(
                reservation.creator_id,
                config_before.with_numbers(numbers),
            ));
            assert(self@.store.channels =~= old(self)@.store.channels.insert(
                channel_id,
                record_of(ticket@, channel_id),
            ));
            assert forall|r: Reservation| #[trigger] self@.pending.contains(r) implies r.number >= 1
                && !self@.numbers_of(r.creator_id).contains(r.number as int) by {
                assert(old(self)@.pending.contains(r));
                assert(r != reservation);
            }
        }
        let top = match highest {
            Some(h) => h == reservation.number,
            None => false,
        };
        if top && reservation.number < MAX_NUMBER {
            JoinStep::Reposition {
                channel_id,
                trigger_channel_id: reservation.creator_id,
                position: reservation.number + 1,
            }
        } else {
            JoinStep::Joined { channel_id }
        }
    }

    /// Takes a join one step further: `reply` is the platform's answer to
    /// the call that `step` named. A final step stays as it is.
    pub fn advance_join(&mut self, step: JoinStep, reply: PlatformReply) -> (next: JoinStep)
        requires
            old(self).wf(),
        ensures
            final(self).wf(),
            final(self)@ == after_join_reply(old(self)@, step@, reply@).0,
            next@ == after_join_reply(old(self)@, step@, reply@).1,
    {
        match step {
            JoinStep::FetchTrigger { ticket } => match reply {
                PlatformReply::TriggerChannel(settings) => {
                    let request = channel_request(&ticket, settings);
                    JoinStep::CreateChannel { ticket, request }
                },
                PlatformReply::GuildChannelsUnavailable => self.abandon(
                    ticket,
                    JoinError::GuildChannelsUnavailable,
                ),
                PlatformReply::TriggerChannelMissing => self.abandon(ticket, JoinError::CreatorChannelMissing),
                _ => self.abandon(ticket, JoinError::UnexpectedReply),
            },
            JoinStep::CreateChannel { ticket, request } => match reply {
                PlatformReply::ChannelCreated(channel_id) => JoinStep::MoveMember { ticket, channel_id },
                PlatformReply::Failed => self.abandon(ticket, JoinError::CreateFailed),
                _ => self.abandon(ticket, JoinError::UnexpectedReply),
            },
            JoinStep::MoveMember { ticket, channel_id } => match reply {
                PlatformReply::Done => self.complete(ticket, channel_id),
                PlatformReply::Failed => self.undo(ticket, channel_id, JoinError::MoveFailed),
                _ => self.undo(ticket, channel_id, JoinError::UnexpectedReply),
            },
            JoinStep::Rollback { guild_id, channel_id, owner_id, error } => JoinStep::Disconnect {
                guild_id,
                owner_id,
                error,
            },
            JoinStep::Disconnect { guild_id, owner_id, error } => JoinStep::Failed { error },
            JoinStep::Reposition { channel_id, trigger_channel_id, position } => JoinStep::Joined { channel_id },
            JoinStep::NotApplicable => JoinStep::NotApplicable,
            JoinStep::Joined { channel_id } => JoinStep::Joined { channel_id },
            JoinStep::Failed { error } => JoinStep::Failed { error },
        }
    }

    /// Cleans up after a temporary channel that is gone: releases its
    /// number and removes its record. A channel without record changes
    /// nothing, so a second clean-up of the same channel does nothing.
    pub fn cleanup(&mut self, channel_id: u64)
        requires
            old(self).wf(),
        ensures
            final(self).wf(),
            final(self)@ == after_cleanup(old(self)@, channel_id),
    {
        let (creator_id, number) = match self.store.get_temporary_voice_channel(channel_id) {
            None => {
                return ;
            },
            Some(record) => (record.creator_id, record.number),
        };
        proof {
            self.store.lemma_view();
        }
        match self.store.take_creator_voice_config(creator_id) {
            Some(mut config) => {
                config.remove_number(number);
                self.store.set_creator_voice_config(config);
            },
            None => {},
        }
        self.store.delete_temporary_voice_channel(channel_id);
        proof {
            self.store.lemma_view();
            assert(self@.store.configs =~= after_cleanup(old(self)@, channel_id).store.configs);
            assert(self@.store.channels =~= after_cleanup(old(self)@, channel_id).store.channels);
            assert forall|r: Reservation| #[trigger] self@.pending.contains(r) implies r.number >= 1
                && !self@.numbers_of(r.creator_id).contains(r.number as int) by {
                assert(old(self)@.pending.contains(r));
            }
        }
    }

    /// The platform reported that a channel is gone. A temporary channel is
    /// cleaned up; a trigger channel loses its configuration.
    pub fn on_channel_deleted_externally(&mut self, channel_id: u64) -> (outcome: DeletionOutcome)
        requires
            old(self).wf(),
        ensures
            final(self).wf(),
            final(self)@ == after_channel_deleted(old(self)@, channel_id).0,
            outcome == after_channel_deleted(old(self)@, channel_id).1,
    {
        if self.store.get_temporary_voice_channel(channel_id).is_some() {
            self.cleanup(channel_id);
            DeletionOutcome::TemporaryChannelRemoved
        } else if self.store.get_creator_voice_config(channel_id).is_some() {
            self.store.delete_creator_voice_config(channel_id);
            proof {
                self.store.lemma_view();
                assert forall|r: Reservation| #[trigger] self@.pending.contains(r) implies r.number >= 1
                    && !self@.numbers_of(r.creator_id).contains(r.number as int) by {
                    assert(old(self)@.pending.contains(r));
                }
            }
            DeletionOutcome::CreatorConfigRemoved
        } else {
            DeletionOutcome::Untracked
        }
    }

    /// A member left a channel. Only a temporary channel is looked at: its
    /// live membership is to be read.
    pub fn on_member_leave(&self, old_channel_id: Option<u64>) -> (step: LeaveStep)
        requires
            self.wf(),
        ensures
            step == leave_begins(self@, old_channel_id),
    {
        match old_channel_id {
            Some(channel_id) => {
                if self.store.get_temporary_voice_channel(channel_id).is_some() {
                    LeaveStep::CountMembers { channel_id }
                } else {
                    LeaveStep::Ignore
                }
            },
            None => LeaveStep::Ignore,
        }
    }

    /// Takes a leave one step further: `reply` is the platform's answer to
    /// the call that `step` named. A final step stays as it is.
    pub fn advance_leave(&mut self, step: LeaveStep, reply: PlatformReply) -> (next: LeaveStep)
        requires
            old(self).wf(),
        ensures
            final(self).wf(),
            final(self)@ == after_leave_reply(old(self)@, step, reply@).0,
            next == after_leave_reply(old(self)@, step, reply@).1,
    {
        match step {
            LeaveStep::CountMembers { channel_id } => match reply {
                PlatformReply::VoiceStates(states) => {
                    if members_in_channel(&states, channel_id) == 0 {
                        LeaveStep::DeleteChannel { channel_id }
                    } else {
                        LeaveStep::Kept { channel_id }
                    }
                },
                _ => LeaveStep::Kept { channel_id },
            },
            LeaveStep::DeleteChannel { channel_id } => match reply {
                PlatformReply::Done => {
                    self.cleanup(channel_id);
                    LeaveStep::Cleaned { channel_id }
                },
                _ => LeaveStep::Kept { channel_id },
            },
            _ => step,
        }
    }
}

/// While a join is under way on a trigger channel, no other join on that
/// channel is given its number: a join that begins in any state gets a
/// number that is neither reserved for that channel nor in use by it.
pub proof fn lemma_join_number_is_fresh(
    m: ManagerView,
    trigger_channel_id: u64,
    owner_id: u64,
    owner_name: Seq<char>,
    presence: Presence,
)
    ensures
        match join_begins(m, trigger_channel_id, owner_id, owner_name, presence).1 {
            StepView::FetchTrigger { ticket } => {
                &&& 1 <= ticket.number
                &&& ticket.creator_id == trigger_channel_id
                &&& !m.pending.contains(ticket.reservation())
                &&& !m.numbers_of(trigger_channel_id).contains(ticket.number as int)
                &&& is_smallest_free(m.taken(trigger_channel_id), ticket.number as int)
                &&& join_begins(m, trigger_channel_id, owner_id, owner_name, presence).0.pending.contains(
                    ticket.reservation(),
                )
            },
            _ => true,
        },
{
    if m.store.configs.dom().contains(trigger_channel_id) && !is_exhausted(m.taken(trigger_channel_id)) {
        let taken = m.taken(trigger_channel_id);
        lemma_smallest_free_exists(taken);
        let n = smallest_free(taken);
        let w = choose|n: int| is_smallest_free(taken, n) && n <= MAX_NUMBER;
        lemma_smallest_free_unique(taken, n, w);
        if m.pending.contains(Reservation { creator_id: trigger_channel_id, number: n as u16 }) {
            assert(m.reserved_for(trigger_channel_id).contains(n));
        }
    }
}

/// Two joins that begin one after the other on the same trigger channel,
/// the first still under way, are given different numbers.
pub proof fn lemma_concurrent_joins_get_distinct_numbers(
    m: ManagerView,
    trigger_channel_id: u64,
    first_owner: u64,
    first_name: Seq<char>,
    first_presence: Presence,
    second_owner: u64,
    second_name: Seq<char>,
    second_presence: Presence,
)
    ensures
        ({
            let first = join_begins(m, trigger_channel_id, first_owner, first_name, first_presence);
            let second = join_begins(first.0, trigger_channel_id, second_owner, second_name, second_presence);
            match (first.1, second.1) {
                (StepView::FetchTrigger { ticket: a }, StepView::FetchTrigger { ticket: b }) => a.number
                    != b.number,
                _ => true,
            }
        }),
{
    let first = join_begins(m, trigger_channel_id, first_owner, first_name, first_presence);
    lemma_join_number_is_fresh(m, trigger_channel_id, first_owner, first_name, first_presence);
    lemma_join_number_is_fresh(first.0, trigger_channel_id, second_owner, second_name, second_presence);
}

/// A second clean-up of the same channel changes nothing.
pub proof fn lemma_cleanup_idempotent(m: ManagerView, channel_id: u64)
    ensures
        after_cleanup(after_cleanup(m, channel_id), channel_id) == after_cleanup(m, channel_id),
{
}

/// Only the completion of a join changes the store: every other step of a
/// join leaves the configurations and the records as they were.
pub proof fn lemma_store_changes_only_on_completion(m: ManagerView, step: StepView, reply: ReplyView)
    requires
        !(step is MoveMember && reply is Done),
    ensures
        after_join_reply(m, step, reply).0.store == m.store,
{
}

/// When the member cannot be moved into the channel that was created, the
/// channel is to be deleted, the number is released, and the flow ends in
/// failure whatever the platform answers from then on. The numbers in use
/// and the records are as they were before the join.
pub proof fn lemma_failed_move_is_rolled_back(
    m: ManagerView,
    ticket: TicketView,
    channel_id: u64,
    deletion: ReplyView,
    disconnection: ReplyView,
)
    ensures
        ({
            let rollback = after_join_reply(m, StepView::MoveMember { ticket, channel_id }, ReplyView::Failed);
            let disconnect = after_join_reply(rollback.0, rollback.1, deletion);
            let end = after_join_reply(disconnect.0, disconnect.1, disconnection);
            &&& rollback.1 == (StepView::Rollback {
                guild_id: ticket.guild_id,
                channel_id,
                owner_id: ticket.owner_id,
                error: JoinError::MoveFailed,
            })
            &&& disconnect.1 == (StepView::Disconnect {
                guild_id: ticket.guild_id,
                owner_id: ticket.owner_id,
                error: JoinError::MoveFailed,
            })
            &&& end.1 == (StepView::Failed { error: JoinError::MoveFailed })
            &&& end.0.store == m.store
            &&& end.0.pending == m.pending.remove(ticket.reservation())
        }),
{
}

/// The clean-up of a channel undoes what the completion of its join did to
/// the store: the number is free again and the record is gone.
pub proof fn lemma_cleanup_reverts_join(m: ManagerView, ticket: TicketView, channel_id: u64)
    requires
        m.wf(),
        m.pending.contains(ticket.reservation()),
        m.store.configs.dom().contains(ticket.creator_id),
        !m.store.channels.dom().contains(channel_id),
    ensures
        after_cleanup(completed(m, ticket, channel_id).0, channel_id).store == m.store,
{
    let joined = completed(m, ticket, channel_id).0;
    let cleaned = after_cleanup(joined, channel_id);
    let config = m.store.configs[ticket.creator_id];
    assert(!config.numbers.contains(ticket.number as int)) by {
        assert(!m.numbers_of(ticket.reservation().creator_id).contains(ticket.reservation().number as int));
    }
    assert(config.numbers.insert(ticket.number as int).remove(ticket.number as int) =~= config.numbers);
    assert(cleaned.store.configs[ticket.creator_id] =~= config);
    assert(cleaned.store.configs =~= m.store.configs);
    assert(cleaned.store.channels =~= m.store.channels);
    assert(cleaned.store =~= m.store);
}

/// Every step of a join keeps a well-formed state well-formed.
pub proof fn lemma_join_steps_keep_wf(m: ManagerView, step: StepView, reply: ReplyView)
    requires
        m.wf(),
    ensures
        after_join_reply(m, step, reply).0.wf(),
{
    let after = after_join_reply(m, step, reply).0;
    assert forall|r: Reservation| #[trigger] after.pending.contains(r) implies r.number >= 1
        && !after.numbers_of(r.creator_id).contains(r.number as int) by {
        assert(m.pending.contains(r));
    }
}

} // verus!
