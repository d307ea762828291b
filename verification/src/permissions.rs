//! The rights that the owner of a temporary channel is given in it.

use vstd::prelude::*;
use serenity::model::Permissions;

verus! {

/// A right that the owner of a temporary channel holds in it.
#[derive(Clone, Copy, Debug, PartialEq, Eq, Structural)]
pub enum Right {
    MoveMembers,
    ManageChannels,
    ManageRoles,
    ViewChannel,
    Connect,
    Speak,
    PrioritySpeaker,
    SendMessages,
    ReadMessageHistory,
}

/// Whom a permission overwrite is for.
#[derive(Clone, Copy, Debug, PartialEq, Eq, Structural)]
pub enum OverwriteTarget {
    Member(u64),
    Role(u64),
}

/// The rights granted and denied to one member or role in a channel, as bit sets.
#[derive(Clone, Copy, Debug, PartialEq, Eq, Structural)]
pub struct PermissionOverwrite {
    pub allow: u64,
    pub deny: u64,
    pub target: OverwriteTarget,
}

/// The bit that the platform assigns to a right.
pub open spec fn right_bits(right: Right) -> u64 {
    match right {
        Right::ManageChannels => 0x10,
        Right::PrioritySpeaker => 0x100,
        Right::ViewChannel => 0x400,
        Right::SendMessages => 0x800,
        Right::ReadMessageHistory => 0x1_0000,
        Right::Connect => 0x10_0000,
        Right::Speak => 0x20_0000,
        Right::MoveMembers => 0x100_0000,
        Right::ManageRoles => 0x1000_0000,
    }
}

/// All rights of an owner together.
pub const OWNER_ALLOW: u64 = 0x1131_0D10;

/// The overwrite that gives the owner their rights, scoped to that member
/// alone and denying nothing.
pub open spec fn owner_overwrite_spec(owner_id: u64) -> PermissionOverwrite {
    PermissionOverwrite { allow: OWNER_ALLOW, deny: 0, target: OverwriteTarget::Member(owner_id) }
}

/// The platform's bit of each right of an owner.
#[derive(Clone, Copy, Debug, PartialEq, Eq, Structural)]
pub struct PlatformFlags {
    pub move_members: u64,
    pub manage_channels: u64,
    pub manage_roles: u64,
    pub view_channel: u64,
    pub connect: u64,
    pub speak: u64,
    pub priority_speaker: u64,
    pub send_messages: u64,
    pub read_message_history: u64,
}

/// Calls serenity's `Permissions::bits` on the flag constants of
/// `Permissions` that stand for the rights of an owner. Trusted: each result
/// is the value that serenity declares for its constant, a single bit
/// (`1 << 24` for `MOVE_MEMBERS`, `1 << 4` for `MANAGE_CHANNELS`, `1 << 28`
/// for `MANAGE_ROLES`, `1 << 10` for `VIEW_CHANNEL`, `1 << 20` for `CONNECT`,
/// `1 << 21` for `SPEAK`, `1 << 8` for `PRIORITY_SPEAKER`, `1 << 11` for
/// `SEND_MESSAGES`, `1 << 16` for `READ_MESSAGE_HISTORY`).
#[verifier::external_body]
fn platform_flags() -> (flags: PlatformFlags)
    ensures
        flags.move_members == right_bits(Right::MoveMembers),
        flags.manage_channels == right_bits(Right::ManageChannels),
        flags.manage_roles == right_bits(Right::ManageRoles),
        flags.view_channel == right_bits(Right::ViewChannel),
        flags.connect == right_bits(Right::Connect),
        flags.speak == right_bits(Right::Speak),
        flags.priority_speaker == right_bits(Right::PrioritySpeaker),
        flags.send_messages == right_bits(Right::SendMessages),
        flags.read_message_history == right_bits(Right::ReadMessageHistory),
{
    PlatformFlags {
        move_members: Permissions::MOVE_MEMBERS.bits(),
        manage_channels: Permissions::MANAGE_CHANNELS.bits(),
        manage_roles: Permissions::MANAGE_ROLES.bits(),
        view_channel: Permissions::VIEW_CHANNEL.bits(),
        connect: Permissions::CONNECT.bits(),
        speak: Permissions::SPEAK.bits(),
        priority_speaker: Permissions::PRIORITY_SPEAKER.bits(),
        send_messages: Permissions::SEND_MESSAGES.bits(),
        read_message_history: Permissions::READ_MESSAGE_HISTORY.bits(),
    }
}

/// The platform's bit of one right.
pub fn bits_of(right: Right) -> (bits: u64)
    ensures
        bits == right_bits(right),
{
    let flags = platform_flags();
    match right {
        Right::MoveMembers => flags.move_members,
        Right::ManageChannels => flags.manage_channels,
        Right::ManageRoles => flags.manage_roles,
        Right::ViewChannel => flags.view_channel,
        Right::Connect => flags.connect,
        Right::Speak => flags.speak,
        Right::PrioritySpeaker => flags.priority_speaker,
        Right::SendMessages => flags.send_messages,
        Right::ReadMessageHistory => flags.read_message_history,
    }
}

/// The rights of an owner as one bit set: every right's bit is in it.
pub fn owner_allow_bits() -> (bits: u64)
    ensures
        bits == OWNER_ALLOW,
        forall|right: Right| bits & #[trigger] right_bits(right) == right_bits(right),
{
    let flags = platform_flags();
    let bits = flags.move_members | flags.manage_channels | flags.manage_roles | flags.view_channel
        | flags.connect | flags.speak | flags.priority_speaker | flags.send_messages
        | flags.read_message_history;
    assert(0x100_0000u64 | 0x10u64 | 0x1000_0000u64 | 0x400u64 | 0x10_0000u64 | 0x20_0000u64 | 0x100u64
        | 0x800u64 | 0x1_0000u64 == 0x1131_0D10u64) by (bit_vector);
    assert(0x1131_0D10u64 & 0x10u64 == 0x10u64) by (bit_vector);
    assert(0x1131_0D10u64 & 0x100u64 == 0x100u64) by (bit_vector);
    assert(0x1131_0D10u64 & 0x400u64 == 0x400u64) by (bit_vector);
    assert(0x1131_0D10u64 & 0x800u64 == 0x800u64) by (bit_vector);
    assert(0x1131_0D10u64 & 0x1_0000u64 == 0x1_0000u64) by (bit_vector);
    assert(0x1131_0D10u64 & 0x10_0000u64 == 0x10_0000u64) by (bit_vector);
    assert(0x1131_0D10u64 & 0x20_0000u64 == 0x20_0000u64) by (bit_vector);
    assert(0x1131_0D10u64 & 0x100_0000u64 == 0x100_0000u64) by (bit_vector);
    assert(0x1131_0D10u64 & 0x1000_0000u64 == 0x1000_0000u64) by (bit_vector);
    bits
}

/// The overwrite that gives `owner_id` the rights of an owner.
pub fn owner_overwrite(owner_id: u64) -> (overwrite: PermissionOverwrite)
    ensures
        overwrite == owner_overwrite_spec(owner_id),
{
    PermissionOverwrite { allow: owner_allow_bits(), deny: 0, target: OverwriteTarget::Member(owner_id) }
}

} // verus!
