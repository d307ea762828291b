//! The records that the lifecycle works on.

use vstd::prelude::*;
use crate::numbers::{is_exhausted, is_highest, is_smallest_free, NumberAllocator, MAX_NUMBER};
use crate::permissions::PermissionOverwrite;

verus! {

/// The bitrate of a new channel when the trigger channel sets none.
pub const DEFAULT_BITRATE: u32 = 64000;

/// The configuration of one trigger channel.
#[derive(Debug)]
pub struct CreatorVoiceConfig {
    guild_id: u64,
    creator_id: u64,
    category_id: u64,
    naming_standard: String,
    user_limit: u32,
    numbers: NumberAllocator,
}

/// What a configuration holds, as plain mathematical values.
#[verifier::ext_equal]
pub struct ConfigView {
    pub guild_id: u64,
    pub creator_id: u64,
    pub category_id: u64,
    pub naming_standard: Seq<char>,
    pub user_limit: u32,
    pub numbers: Set<int>,
}

impl ConfigView {
    /// The numbers in use are positive and at most `MAX_NUMBER`.
    pub open spec fn wf(self) -> bool {
        forall|n: int| self.numbers.contains(n) ==> 1 <= n <= MAX_NUMBER
    }

    /// The same configuration with other numbers in use.
    pub open spec fn with_numbers(self, numbers: Set<int>) -> ConfigView {
        ConfigView { numbers, ..self }
    }
}

impl View for CreatorVoiceConfig {
    type V = ConfigView;

    closed spec fn view(&self) -> ConfigView {
        ConfigView {
            guild_id: self.guild_id,
            creator_id: self.creator_id,
            category_id: self.category_id,
            naming_standard: self.naming_standard@,
            user_limit: self.user_limit,
            numbers: self.numbers@,
        }
    }
}

impl CreatorVoiceConfig {
    /// The numbers in use are kept in order.
    pub closed spec fn wf(&self) -> bool {
        self.numbers.wf()
    }

    /// A well-formed configuration has a well-formed view.
    pub proof fn lemma_view(&self)
        requires
            self.wf(),
        ensures
            self@.wf(),
    {
        self.numbers.lemma_view_bounds();
    }

    /// The guild that the trigger channel belongs to.
    pub fn guild_id(&self) -> (id: u64)
        ensures
            id == self@.guild_id,
    {
        self.guild_id
    }

    /// The trigger channel.
    pub fn creator_id(&self) -> (id: u64)
        ensures
            id == self@.creator_id,
    {
        self.creator_id
    }

    /// The category under which channels are created.
    pub fn category_id(&self) -> (id: u64)
        ensures
            id == self@.category_id,
    {
        self.category_id
    }

    /// The naming template of the channels.
    pub fn naming_standard(&self) -> (template: &String)
        ensures
            template@ == self@.naming_standard,
    {
        &self.naming_standard
    }

    /// The user limit of a channel when the trigger channel sets none.
    pub fn user_limit(&self) -> (limit: u32)
        ensures
            limit == self@.user_limit,
    {
        self.user_limit
    }

    /// Replaces the guild, the category, the naming template and the user
    /// limit; the trigger channel and the numbers in use stay.
    pub fn update(&mut self, guild_id: u64, category_id: u64, naming_standard: String, user_limit: u32)
        requires
            old(self).wf(),
        ensures
            final(self).wf(),
            final(self)@ == (ConfigView {
                guild_id,
                category_id,
                naming_standard: naming_standard@,
                user_limit,
                ..old(self)@
            }),
    {
        self.guild_id = guild_id;
        self.category_id = category_id;
        self.naming_standard = naming_standard;
        self.user_limit = user_limit;
    }

    /// A configuration with no number in use.
    pub fn new(guild_id: u64, creator_id: u64, category_id: u64, naming_standard: String, user_limit: u32) -> (config:
        Self)
        ensures
            config.wf(),
            config@ == (ConfigView {
                guild_id,
                creator_id,
                category_id,
                naming_standard: naming_standard@,
                user_limit,
                numbers: Set::<int>::empty(),
            }),
    {
        CreatorVoiceConfig {
            guild_id,
            creator_id,
            category_id,
            naming_standard,
            user_limit,
            numbers: NumberAllocator::new(),
        }
    }

    /// The smallest positive number that is not in use; `None` when every
    /// number is in use.
    pub fn get_next_number(&self) -> (next: Option<u16>)
        requires
            self.wf(),
        ensures
            match next {
                Some(n) => is_smallest_free(self@.numbers, n as int),
                None => is_exhausted(self@.numbers),
            },
    {
        self.numbers.get_next_number()
    }

    /// Takes `n` into use. Fails, changing nothing, when `n` is zero or
    /// already in use.
    pub fn add_number(&mut self, n: u16) -> (added: bool)
        requires
            old(self).wf(),
        ensures
            final(self).wf(),
            added == (n >= 1 && !old(self)@.numbers.contains(n as int)),
            added ==> final(self)@ == old(self)@.with_numbers(old(self)@.numbers.insert(n as int)),
            !added ==> *final(self) == *old(self),
    {
        self.numbers.add_number(n)
    }

    /// Releases `n`; a number that is not in use is left alone.
    pub fn remove_number(&mut self, n: u16)
        requires
            old(self).wf(),
        ensures
            final(self).wf(),
            final(self)@ == old(self)@.with_numbers(old(self)@.numbers.remove(n as int)),
            !old(self)@.numbers.contains(n as int) ==> *final(self) == *old(self),
    {
        self.numbers.remove_number(n)
    }

    /// The largest number in use; `None` when no number is in use.
    pub fn get_highest_number(&self) -> (highest: Option<u16>)
        requires
            self.wf(),
        ensures
            match highest {
                Some(n) => is_highest(self@.numbers, n as int),
                None => self@.numbers == Set::<int>::empty(),
            },
    {
        self.numbers.get_highest_number()
    }

    /// Whether `n` is in use.
    pub fn has_number(&self, n: u16) -> (found: bool)
        requires
            self.wf(),
        ensures
            found == self@.numbers.contains(n as int),
    {
        self.numbers.contains(n)
    }

    /// How many numbers are in use.
    pub fn number_count(&self) -> (count: usize)
        requires
            self.wf(),
        ensures
            count == self@.numbers.len(),
    {
        self.numbers.len()
    }
}

/// The record of one live temporary channel.
#[derive(Debug, PartialEq, Eq)]
pub struct TemporaryVoiceChannel {
    pub guild_id: u64,
    pub channel_id: u64,
    pub creator_id: u64,
    pub owner_id: u64,
    pub name: String,
    pub template_name: String,
    pub number: u16,
}

/// What a channel record holds, as plain mathematical values.
#[verifier::ext_equal]
pub struct ChannelView {
    pub guild_id: u64,
    pub channel_id: u64,
    pub creator_id: u64,
    pub owner_id: u64,
    pub name: Seq<char>,
    pub template_name: Seq<char>,
    pub number: u16,
}

impl View for TemporaryVoiceChannel {
    type V = ChannelView;

    open spec fn view(&self) -> ChannelView {
        ChannelView {
            guild_id: self.guild_id,
            channel_id: self.channel_id,
            creator_id: self.creator_id,
            owner_id: self.owner_id,
            name: self.name@,
            template_name: self.template_name@,
            number: self.number,
        }
    }
}

impl TemporaryVoiceChannel {
    /// The record of a channel.
    pub fn new(
        guild_id: u64,
        channel_id: u64,
        creator_id: u64,
        owner_id: u64,
        name: String,
        template_name: String,
        number: u16,
    ) -> (record: Self)
        ensures
            record@ == (ChannelView {
                guild_id,
                channel_id,
                creator_id,
                owner_id,
                name: name@,
                template_name: template_name@,
                number,
            }),
    {
        TemporaryVoiceChannel { guild_id, channel_id, creator_id, owner_id, name, template_name, number }
    }
}

/// What the platform reports of the trigger channel when a member joins it.
#[derive(Debug, PartialEq, Eq)]
pub struct TriggerChannelSettings {
    pub permission_overwrites: Vec<PermissionOverwrite>,
    pub bitrate: Option<u32>,
    pub nsfw: bool,
    pub user_limit: Option<u32>,
}

/// What the settings hold, as plain mathematical values.
#[verifier::ext_equal]
pub struct SettingsView {
    pub permission_overwrites: Seq<PermissionOverwrite>,
    pub bitrate: Option<u32>,
    pub nsfw: bool,
    pub user_limit: Option<u32>,
}

impl View for TriggerChannelSettings {
    type V = SettingsView;

    open spec fn view(&self) -> SettingsView {
        SettingsView {
            permission_overwrites: self.permission_overwrites@,
            bitrate: self.bitrate,
            nsfw: self.nsfw,
            user_limit: self.user_limit,
        }
    }
}

/// The voice channel that the platform is asked to create.
#[derive(Debug, PartialEq, Eq)]
pub struct ChannelRequest {
    pub name: String,
    pub category_id: u64,
    pub position: u16,
    pub user_limit: u32,
    pub bitrate: u32,
    pub nsfw: bool,
    pub permission_overwrites: Vec<PermissionOverwrite>,
}

/// What a request holds, as plain mathematical values.
#[verifier::ext_equal]
pub struct RequestView {
    pub name: Seq<char>,
    pub category_id: u64,
    pub position: u16,
    pub user_limit: u32,
    pub bitrate: u32,
    pub nsfw: bool,
    pub permission_overwrites: Seq<PermissionOverwrite>,
}

impl View for ChannelRequest {
    type V = RequestView;

    open spec fn view(&self) -> RequestView {
        RequestView {
            name: self.name@,
            category_id: self.category_id,
            position: self.position,
            user_limit: self.user_limit,
            bitrate: self.bitrate,
            nsfw: self.nsfw,
            permission_overwrites: self.permission_overwrites@,
        }
    }
}

} // verus!
