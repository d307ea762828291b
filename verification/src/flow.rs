//! The steps of the join and leave flows, and the platform's replies to them.
//!
//! A flow is run by its caller: each step that is not final names one call
//! to the platform, and the platform's reply to that call leads to the next
//! step.

use vstd::prelude::*;
use crate::model::{ChannelRequest, RequestView, SettingsView, TriggerChannelSettings};

verus! {

/// A number held for a join that is under way on a trigger channel.
#[derive(Clone, Copy, Debug, PartialEq, Eq, Structural)]
pub struct Reservation {
    pub creator_id: u64,
    pub number: u16,
}

/// Why a join failed.
#[derive(Clone, Copy, Debug, PartialEq, Eq, Structural)]
pub enum JoinError {
    /// Every number of the trigger channel is in use.
    Exhausted,
    /// The guild's channels could not be read.
    GuildChannelsUnavailable,
    /// The trigger channel is not among the guild's channels.
    CreatorChannelMissing,
    /// The platform did not create the channel.
    CreateFailed,
    /// The member could not be moved into the new channel.
    MoveFailed,
    /// The trigger channel lost its configuration while the join was under way.
    ConfigMissing,
    /// The ticket holds no reservation with this manager.
    UnknownTicket,
    /// The reply does not answer the step's call.
    UnexpectedReply,
}

/// The text that describes a join error.
pub open spec fn error_text(error: JoinError) -> Seq<char> {
    match error {
        JoinError::Exhausted => "Could not allocate a number"@,
        JoinError::GuildChannelsUnavailable => "Could not get guild channels"@,
        JoinError::CreatorChannelMissing => "Could not get the creator channel"@,
        JoinError::CreateFailed => "Could not create guild channel"@,
        JoinError::MoveFailed => "Could not move voice channel to creator channel"@,
        JoinError::ConfigMissing => "Could not get the creator channel configuration"@,
        JoinError::UnknownTicket => "Could not find the reservation"@,
        JoinError::UnexpectedReply => "Could not use the reply"@,
    }
}

impl JoinError {
    /// The text that describes the error.
    pub fn message(&self) -> (text: &'static str)
        ensures
            text@ == error_text(*self),
    {
        match self {
            JoinError::Exhausted => "Could not allocate a number",
            JoinError::GuildChannelsUnavailable => "Could not get guild channels",
            JoinError::CreatorChannelMissing => "Could not get the creator channel",
            JoinError::CreateFailed => "Could not create guild channel",
            JoinError::MoveFailed => "Could not move voice channel to creator channel",
            JoinError::ConfigMissing => "Could not get the creator channel configuration",
            JoinError::UnknownTicket => "Could not find the reservation",
            JoinError::UnexpectedReply => "Could not use the reply",
        }
    }
}

/// What a join carries from step to step: the reserved number, the rendered
/// name and what was read of the configuration when the join began. Only a
/// lifecycle manager makes tickets.
#[derive(Debug, PartialEq, Eq)]
pub struct JoinTicket {
    guild_id: u64,
    creator_id: u64,
    category_id: u64,
    owner_id: u64,
    number: u16,
    name: String,
    template_name: String,
    user_limit: u32,
}

/// What a ticket holds, as plain mathematical values.
#[verifier::ext_equal]
pub struct TicketView {
    pub guild_id: u64,
    pub creator_id: u64,
    pub category_id: u64,
    pub owner_id: u64,
    pub number: u16,
    pub name: Seq<char>,
    pub template_name: Seq<char>,
    pub user_limit: u32,
}

impl TicketView {
    /// The reservation that the ticket stands for.
    pub open spec fn reservation(self) -> Reservation {
        Reservation { creator_id: self.creator_id, number: self.number }
    }
}

impl View for JoinTicket {
    type V = TicketView;

    closed spec fn view(&self) -> TicketView {
        TicketView {
            guild_id: self.guild_id,
            creator_id: self.creator_id,
            category_id: self.category_id,
            owner_id: self.owner_id,
            number: self.number,
            name: self.name@,
            template_name: self.template_name@,
            user_limit: self.user_limit,
        }
    }
}

/// The parts of a ticket, taken apart when the join completes.
pub struct TicketParts {
    pub guild_id: u64,
    pub creator_id: u64,
    pub category_id: u64,
    pub owner_id: u64,
    pub number: u16,
    pub name: String,
    pub template_name: String,
    pub user_limit: u32,
}

impl View for TicketParts {
    type V = TicketView;

    open spec fn view(&self) -> TicketView {
        TicketView {
            guild_id: self.guild_id,
            creator_id: self.creator_id,
            category_id: self.category_id,
            owner_id: self.owner_id,
            number: self.number,
            name: self.name@,
            template_name: self.template_name@,
            user_limit: self.user_limit,
        }
    }
}

impl JoinTicket {
    /// The ticket made of `parts`.
    pub(crate) fn new(parts: TicketParts) -> (ticket: Self)
        ensures
            ticket@ == parts@,
    {
        JoinTicket {
            guild_id: parts.guild_id,
            creator_id: parts.creator_id,
            category_id: parts.category_id,
            owner_id: parts.owner_id,
            number: parts.number,
            name: parts.name,
            template_name: parts.template_name,
            user_limit: parts.user_limit,
        }
    }

    /// The parts of the ticket.
    pub(crate) fn into_parts(self) -> (parts: TicketParts)
        ensures
            parts@ == self@,
    {
        TicketParts {
            guild_id: self.guild_id,
            creator_id: self.creator_id,
            category_id: self.category_id,
            owner_id: self.owner_id,
            number: self.number,
            name: self.name,
            template_name: self.template_name,
            user_limit: self.user_limit,
        }
    }

    /// The guild in which the join takes place.
    pub fn guild_id(&self) -> (id: u64)
        ensures
            id == self@.guild_id,
    {
        self.guild_id
    }

    /// The trigger channel that the member joined.
    pub fn creator_id(&self) -> (id: u64)
        ensures
            id == self@.creator_id,
    {
        self.creator_id
    }

    /// The category under which the channel is created.
    pub fn category_id(&self) -> (id: u64)
        ensures
            id == self@.category_id,
    {
        self.category_id
    }

    /// The member who joined and will own the channel.
    pub fn owner_id(&self) -> (id: u64)
        ensures
            id == self@.owner_id,
    {
        self.owner_id
    }

    /// The number reserved for the channel.
    pub fn number(&self) -> (number: u16)
        ensures
            number == self@.number,
    {
        self.number
    }

    /// The rendered name of the channel.
    pub fn name(&self) -> (name: &String)
        ensures
            name@ == self@.name,
    {
        &self.name
    }

    /// The user limit of the channel when the trigger channel sets none.
    pub fn user_limit(&self) -> (limit: u32)
        ensures
            limit == self@.user_limit,
    {
        self.user_limit
    }

    /// The reservation that the ticket stands for.
    pub fn reservation(&self) -> (reservation: Reservation)
        ensures
            reservation == self@.reservation(),
    {
        Reservation { creator_id: self.creator_id, number: self.number }
    }
}

/// A step of the join flow. `NotApplicable`, `Joined` and `Failed` are final;
/// every other step names the call to make next.
#[derive(Debug, PartialEq, Eq)]
pub enum JoinStep {
    /// The channel that was joined is no trigger channel: nothing to do.
    NotApplicable,
    /// Read the trigger channel's live settings from the guild's channels.
    FetchTrigger { ticket: JoinTicket },
    /// Create the channel that `request` describes in the ticket's guild.
    CreateChannel { ticket: JoinTicket, request: ChannelRequest },
    /// Move the owner into the channel that was created.
    MoveMember { ticket: JoinTicket, channel_id: u64 },
    /// Delete the channel that was created: the join has failed.
    Rollback { guild_id: u64, channel_id: u64, owner_id: u64, error: JoinError },
    /// Disconnect the member, who is left in the trigger channel.
    Disconnect { guild_id: u64, owner_id: u64, error: JoinError },
    /// Move the trigger channel to `position`, below the new channel.
    Reposition { channel_id: u64, trigger_channel_id: u64, position: u16 },
    /// The member is in the new channel `channel_id`.
    Joined { channel_id: u64 },
    /// The join failed.
    Failed { error: JoinError },
}

/// A step of the join flow, as plain mathematical values.
#[verifier::ext_equal]
pub enum StepView {
    NotApplicable,
    FetchTrigger { ticket: TicketView },
    CreateChannel { ticket: TicketView, request: RequestView },
    MoveMember { ticket: TicketView, channel_id: u64 },
    Rollback { guild_id: u64, channel_id: u64, owner_id: u64, error: JoinError },
    Disconnect { guild_id: u64, owner_id: u64, error: JoinError },
    Reposition { channel_id: u64, trigger_channel_id: u64, position: u16 },
    Joined { channel_id: u64 },
    Failed { error: JoinError },
}

impl View for JoinStep {
    type V = StepView;

    open spec fn view(&self) -> StepView {
        match self {
            JoinStep::NotApplicable => StepView::NotApplicable,
            JoinStep::FetchTrigger { ticket } => StepView::FetchTrigger { ticket: ticket@ },
            JoinStep::CreateChannel { ticket, request } => StepView::CreateChannel {
                ticket: ticket@,
                request: request@,
            },
            JoinStep::MoveMember { ticket, channel_id } => StepView::MoveMember {
                ticket: ticket@,
                channel_id: *channel_id,
            },
            JoinStep::Rollback { guild_id, channel_id, owner_id, error } => StepView::Rollback {
                guild_id: *guild_id,
                channel_id: *channel_id,
                owner_id: *owner_id,
                error: *error,
            },
            JoinStep::Disconnect { guild_id, owner_id, error } => StepView::Disconnect {
                guild_id: *guild_id,
                owner_id: *owner_id,
                error: *error,
            },
            JoinStep::Reposition { channel_id, trigger_channel_id, position } => StepView::Reposition {
                channel_id: *channel_id,
                trigger_channel_id: *trigger_channel_id,
                position: *position,
            },
            JoinStep::Joined { channel_id } => StepView::Joined { channel_id: *channel_id },
            JoinStep::Failed { error } => StepView::Failed { error: *error },
        }
    }
}

impl JoinStep {
    /// Whether the flow has ended with this step.
    pub fn is_final(&self) -> (ended: bool)
        ensures
            ended == (self@ is NotApplicable || self@ is Joined || self@ is Failed),
    {
        match self {
            JoinStep::NotApplicable => true,
            JoinStep::Joined { .. } => true,
            JoinStep::Failed { .. } => true,
            _ => false,
        }
    }
}

/// A step of the leave flow. `Ignore`, `Kept` and `Cleaned` are final.
#[derive(Clone, Copy, Debug, PartialEq, Eq, Structural)]
pub enum LeaveStep {
    /// The channel that was left is no temporary channel: nothing to do.
    Ignore,
    /// Read who is in the channel now.
    CountMembers { channel_id: u64 },
    /// Delete the channel: it is empty.
    DeleteChannel { channel_id: u64 },
    /// The channel stays, and so does its record.
    Kept { channel_id: u64 },
    /// The channel is deleted and its record cleaned up.
    Cleaned { channel_id: u64 },
}

impl LeaveStep {
    /// Whether the flow has ended with this step.
    pub fn is_final(&self) -> (ended: bool)
        ensures
            ended == (*self is Ignore || *self is Kept || *self is Cleaned),
    {
        match self {
            LeaveStep::Ignore => true,
            LeaveStep::Kept { .. } => true,
            LeaveStep::Cleaned { .. } => true,
            _ => false,
        }
    }
}

/// What the platform answered to the call that a step named.
#[derive(Debug, PartialEq, Eq)]
pub enum PlatformReply {
    /// The live settings of the trigger channel.
    TriggerChannel(TriggerChannelSettings),
    /// The guild's channels could not be read.
    GuildChannelsUnavailable,
    /// The guild's channels were read, and the trigger channel is not among them.
    TriggerChannelMissing,
    /// The channel was created under this id.
    ChannelCreated(u64),
    /// The channel of each member of the guild who is in a voice channel.
    VoiceStates(Vec<Option<u64>>),
    /// The call succeeded.
    Done,
    /// The call failed.
    Failed,
}

/// A reply of the platform, as plain mathematical values.
#[verifier::ext_equal]
pub enum ReplyView {
    TriggerChannel(SettingsView),
    GuildChannelsUnavailable,
    TriggerChannelMissing,
    ChannelCreated(u64),
    VoiceStates(Seq<Option<u64>>),
    Done,
    Failed,
}

impl View for PlatformReply {
    type V = ReplyView;

    open spec fn view(&self) -> ReplyView {
        match self {
            PlatformReply::TriggerChannel(settings) => ReplyView::TriggerChannel(settings@),
            PlatformReply::GuildChannelsUnavailable => ReplyView::GuildChannelsUnavailable,
            PlatformReply::TriggerChannelMissing => ReplyView::TriggerChannelMissing,
            PlatformReply::ChannelCreated(channel_id) => ReplyView::ChannelCreated(*channel_id),
            PlatformReply::VoiceStates(states) => ReplyView::VoiceStates(states@),
            PlatformReply::Done => ReplyView::Done,
            PlatformReply::Failed => ReplyView::Failed,
        }
    }
}

} // verus!
