use serenity::model::Permissions;
use temp_voice::events::{voice_state_update, VoiceUpdatePlan};
use temp_voice::model::{CreatorVoiceConfig, TemporaryVoiceChannel};
use temp_voice::permissions::{bits_of, owner_allow_bits, owner_overwrite, OverwriteTarget, Right, OWNER_ALLOW};
use temp_voice::store::Store;

#[test]
fn owner_rights_are_the_platform_flags() {
    let expected = Permissions::MOVE_MEMBERS
        | Permissions::MANAGE_CHANNELS
        | Permissions::MANAGE_ROLES
        | Permissions::VIEW_CHANNEL
        | Permissions::CONNECT
        | Permissions::SPEAK
        | Permissions::PRIORITY_SPEAKER
        | Permissions::SEND_MESSAGES
        | Permissions::READ_MESSAGE_HISTORY;
    assert_eq!(owner_allow_bits(), expected.bits());
    assert_eq!(owner_allow_bits(), 0x1131_0D10);
    assert_eq!(owner_allow_bits(), 288427280);
    assert_eq!(OWNER_ALLOW, 288427280);
    assert_eq!(Permissions::from_bits(owner_allow_bits()), Some(expected));
}

#[test]
fn each_right_has_the_bit_of_its_platform_flag() {
    assert_eq!(bits_of(Right::MoveMembers), Permissions::MOVE_MEMBERS.bits());
    assert_eq!(bits_of(Right::ManageChannels), Permissions::MANAGE_CHANNELS.bits());
    assert_eq!(bits_of(Right::ManageRoles), Permissions::MANAGE_ROLES.bits());
    assert_eq!(bits_of(Right::ViewChannel), Permissions::VIEW_CHANNEL.bits());
    assert_eq!(bits_of(Right::Connect), Permissions::CONNECT.bits());
    assert_eq!(bits_of(Right::Speak), Permissions::SPEAK.bits());
    assert_eq!(bits_of(Right::PrioritySpeaker), Permissions::PRIORITY_SPEAKER.bits());
    assert_eq!(bits_of(Right::SendMessages), Permissions::SEND_MESSAGES.bits());
    assert_eq!(bits_of(Right::ReadMessageHistory), Permissions::READ_MESSAGE_HISTORY.bits());
    assert_eq!(bits_of(Right::MoveMembers), 1 << 24);
    assert_eq!(bits_of(Right::ManageChannels), 1 << 4);
    assert_eq!(bits_of(Right::ManageRoles), 1 << 28);
    assert_eq!(bits_of(Right::ViewChannel), 1 << 10);
    assert_eq!(bits_of(Right::Connect), 1 << 20);
    assert_eq!(bits_of(Right::Speak), 1 << 21);
    assert_eq!(bits_of(Right::PrioritySpeaker), 1 << 8);
    assert_eq!(bits_of(Right::SendMessages), 1 << 11);
    assert_eq!(bits_of(Right::ReadMessageHistory), 1 << 16);
}

#[test]
fn owner_overwrite_is_scoped_to_the_member() {
    let overwrite = owner_overwrite(77);
    assert_eq!(overwrite.allow, OWNER_ALLOW);
    assert_eq!(overwrite.deny, 0);
    assert_eq!(overwrite.target, OverwriteTarget::Member(77));
}

#[test]
fn unchanged_channel_starts_nothing() {
    let nothing = VoiceUpdatePlan { join: None, leave: None };
    assert_eq!(voice_state_update(Some(Some(5)), Some(5), true), nothing);
    assert_eq!(voice_state_update(Some(None), None, true), nothing);
    assert_eq!(voice_state_update(None, None, true), nothing);
}

#[test]
fn unknown_member_starts_nothing() {
    let nothing = VoiceUpdatePlan { join: None, leave: None };
    assert_eq!(voice_state_update(Some(Some(5)), Some(6), false), nothing);
    assert_eq!(voice_state_update(None, Some(6), false), nothing);
}

#[test]
fn changed_channel_starts_join_and_leave() {
    assert_eq!(voice_state_update(None, Some(6), true), VoiceUpdatePlan { join: Some(6), leave: None });
    assert_eq!(voice_state_update(Some(None), Some(6), true), VoiceUpdatePlan { join: Some(6), leave: None });
    assert_eq!(voice_state_update(Some(Some(5)), Some(6), true), VoiceUpdatePlan { join: Some(6), leave: Some(5) });
    assert_eq!(voice_state_update(Some(Some(5)), None, true), VoiceUpdatePlan { join: None, leave: Some(5) });
}

#[test]
fn store_reads_its_own_writes() {
    let mut store = Store::new();
    assert!(store.get_creator_voice_config(10).is_none());
    store.set_creator_voice_config(CreatorVoiceConfig::new(1, 10, 20, String::from("a"), 2));
    store.set_creator_voice_config(CreatorVoiceConfig::new(1, 11, 21, String::from("b"), 3));
    assert_eq!(store.get_creator_voice_config(10).expect("config").category_id(), 20);
    assert_eq!(store.get_creator_voice_config(11).expect("config").category_id(), 21);
    store.set_creator_voice_config(CreatorVoiceConfig::new(1, 10, 30, String::from("c"), 2));
    assert_eq!(store.get_creator_voice_config(10).expect("config").category_id(), 30);
    assert_eq!(store.get_creator_voice_config(11).expect("config").naming_standard().as_str(), "b");
    store.delete_creator_voice_config(10);
    store.delete_creator_voice_config(10);
    assert!(store.get_creator_voice_config(10).is_none());
    assert!(store.get_creator_voice_config(11).is_some());
    let taken = store.take_creator_voice_config(11).expect("config");
    assert_eq!(taken.creator_id(), 11);
    assert!(store.take_creator_voice_config(11).is_none());
}

#[test]
fn store_keeps_one_record_per_channel() {
    let mut store = Store::new();
    store.set_temporary_voice_channel(TemporaryVoiceChannel::new(1, 100, 10, 7, String::from("x"), String::from("t"), 1));
    store.set_temporary_voice_channel(TemporaryVoiceChannel::new(1, 101, 10, 8, String::from("y"), String::from("t"), 2));
    store.set_temporary_voice_channel(TemporaryVoiceChannel::new(1, 100, 10, 9, String::from("z"), String::from("t"), 3));
    let record = store.get_temporary_voice_channel(100).expect("record");
    assert_eq!(record.owner_id, 9);
    assert_eq!(record.number, 3);
    assert_eq!(store.get_temporary_voice_channel(101).expect("record").name, "y");
    store.delete_temporary_voice_channel(100);
    store.delete_temporary_voice_channel(100);
    assert!(store.get_temporary_voice_channel(100).is_none());
    assert!(store.get_temporary_voice_channel(101).is_some());
    assert!(store.get_creator_voice_config(100).is_none());
}
