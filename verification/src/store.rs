//! The configurations and channel records, each filed under its channel id.

use vstd::prelude::*;
use crate::model::{ChannelView, ConfigView, CreatorVoiceConfig, TemporaryVoiceChannel};
use crate::table::Table;

verus! {

/// Configurations by trigger channel and channel records by channel.
#[derive(Debug)]
pub struct Store {
    configs: Table<CreatorVoiceConfig>,
    channels: Table<TemporaryVoiceChannel>,
}

/// What a store holds, as plain mathematical values.
#[verifier::ext_equal]
pub struct StoreView {
    pub configs: Map<u64, ConfigView>,
    pub channels: Map<u64, ChannelView>,
}

impl StoreView {
    /// Every entry is filed under its own id, and every configuration is
    /// well-formed.
    pub open spec fn wf(self) -> bool {
        &&& forall|id: u64| #[trigger]
            self.configs.dom().contains(id) ==> self.configs[id].creator_id == id && self.configs[id].wf()
        &&& forall|id: u64| #[trigger]
            self.channels.dom().contains(id) ==> self.channels[id].channel_id == id
    }
}

impl View for Store {
    type V = StoreView;

    closed spec fn view(&self) -> StoreView {
        StoreView {
            configs: self.configs@.map_values(|c: CreatorVoiceConfig| c@),
            channels: self.channels@.map_values(|c: TemporaryVoiceChannel| c@),
        }
    }
}

impl Store {
    /// Every entry is filed under its own id, once, and every configuration
    /// is well-formed.
    pub closed spec fn wf(&self) -> bool {
        &&& self.configs.wf()
        &&& self.channels.wf()
        &&& forall|id: u64| #[trigger]
            self.configs@.dom().contains(id) ==> self.configs@[id].wf() && self.configs@[id]@.creator_id == id
        &&& forall|id: u64| #[trigger]
            self.channels@.dom().contains(id) ==> self.channels@[id].channel_id == id
    }

    /// A well-formed store has a well-formed view.
    pub proof fn lemma_view(&self)
        requires
            self.wf(),
        ensures
            self@.wf(),
    {
        assert forall|id: u64| #[trigger] self@.configs.dom().contains(id) implies self@.configs[id].creator_id
            == id && self@.configs[id].wf() by {
            assert(self.configs@.dom().contains(id));
            self.configs@[id].lemma_view();
        }
        assert forall|id: u64| #[trigger] self@.channels.dom().contains(id) implies self@.channels[id].channel_id
            == id by {
            assert(self.channels@.dom().contains(id));
        }
    }

    /// A store without entries.
    pub fn new() -> (store: Self)
        ensures
            store.wf(),
            store@.configs == Map::<u64, ConfigView>::empty(),
            store@.channels == Map::<u64, ChannelView>::empty(),
    {
        let store = Store { configs: Table::new(), channels: Table::new() };
        assert(store@.configs =~= Map::<u64, ConfigView>::empty());
        assert(store@.channels =~= Map::<u64, ChannelView>::empty());
        store
    }

    /// The configuration of a trigger channel, if it has one.
    pub fn get_creator_voice_config(&self, creator_id: u64) -> (config: Option<&CreatorVoiceConfig>)
        requires
            self.wf(),
        ensures
            match config {
                Some(c) => self@.configs.dom().contains(creator_id) && c@ == self@.configs[creator_id] && c.wf(),
                None => !self@.configs.dom().contains(creator_id),
            },
    {
        self.configs.get(creator_id)
    }

    /// Files a configuration under its trigger channel, in place of any that
    /// was there.
    pub fn set_creator_voice_config(&mut self, config: CreatorVoiceConfig)
        requires
            old(self).wf(),
            config.wf(),
        ensures
            final(self).wf(),
            final(self)@ == (StoreView {
                configs: old(self)@.configs.insert(config@.creator_id, config@),
                ..old(self)@
            }),
    {
        let creator_id = config.creator_id();
        self.configs.set(creator_id, config);
        assert(self@.configs =~= old(self)@.configs.insert(config@.creator_id, config@));
    }

    /// Removes the configuration of a trigger channel, if there is one.
    pub fn delete_creator_voice_config(&mut self, creator_id: u64)
        requires
            old(self).wf(),
        ensures
            final(self).wf(),
            final(self)@ == (StoreView { configs: old(self)@.configs.remove(creator_id), ..old(self)@ }),
    {
        let _ = self.configs.take(creator_id);
        assert(self@.configs =~= old(self)@.configs.remove(creator_id));
    }

    /// Takes the configuration of a trigger channel out of the store, if
    /// there is one.
    pub fn take_creator_voice_config(&mut self, creator_id: u64) -> (config: Option<CreatorVoiceConfig>)
        requires
            old(self).wf(),
        ensures
            final(self).wf(),
            final(self)@ == (StoreView { configs: old(self)@.configs.remove(creator_id), ..old(self)@ }),
            match config {
                Some(c) => old(self)@.configs.dom().contains(creator_id) && c@ == old(self)@.configs[creator_id]
                    && c.wf(),
                None => !old(self)@.configs.dom().contains(creator_id),
            },
    {
        let config = self.configs.take(creator_id);
        assert(self@.configs =~= old(self)@.configs.remove(creator_id));
        config
    }

    /// The record of a channel, if it is a temporary channel.
    pub fn get_temporary_voice_channel(&self, channel_id: u64) -> (record: Option<&TemporaryVoiceChannel>)
        requires
            self.wf(),
        ensures
            match record {
                Some(r) => self@.channels.dom().contains(channel_id) && r@ == self@.channels[channel_id],
                None => !self@.channels.dom().contains(channel_id),
            },
    {
        self.channels.get(channel_id)
    }

    /// Files a channel record under its channel, in place of any that was
    /// there.
    pub fn set_temporary_voice_channel(&mut self, record: TemporaryVoiceChannel)
        requires
            old(self).wf(),
        ensures
            final(self).wf(),
            final(self)@ == (StoreView {
                channels: old(self)@.channels.insert(record@.channel_id, record@),
                ..old(self)@
            }),
    {
        let channel_id = record.channel_id;
        self.channels.set(channel_id, record);
        assert(self@.channels =~= old(self)@.channels.insert(record@.channel_id, record@));
    }

    /// Removes the record of a channel, if there is one.
    pub fn delete_temporary_voice_channel(&mut self, channel_id: u64)
        requires
            old(self).wf(),
        ensures
            final(self).wf(),
            final(self)@ == (StoreView { channels: old(self)@.channels.remove(channel_id), ..old(self)@ }),
    {
        let _ = self.channels.take(channel_id);
        assert(self@.channels =~= old(self)@.channels.remove(channel_id));
    }
}

} // verus!
