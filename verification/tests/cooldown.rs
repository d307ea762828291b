use temp_voice::commands::{route_command, Command};
use temp_voice::cooldown::{CooldownManager, DEFAULT_COOLDOWN_MILLIS};
use temp_voice::handler::Handler;

#[test]
fn first_use_is_permitted_then_refused_then_permitted_again() {
    let mut manager = CooldownManager::with_cooldown(1000);
    assert!(manager.check_and_record(1, Command::Invite, 5000));
    assert!(!manager.check_and_record(1, Command::Invite, 5000));
    assert!(!manager.check_and_record(1, Command::Invite, 5001));
    assert!(!manager.check_and_record(1, Command::Invite, 5999));
    assert!(manager.check_and_record(1, Command::Invite, 6000));
    assert!(!manager.check_and_record(1, Command::Invite, 6999));
    assert!(manager.check_and_record(1, Command::Invite, 9999));
}

#[test]
fn refused_use_does_not_move_the_stamp() {
    let mut manager = CooldownManager::with_cooldown(1000);
    assert!(manager.check_and_record(1, Command::Invite, 100));
    assert_eq!(manager.last_used(1, Command::Invite), Some(100));
    assert!(!manager.check_and_record(1, Command::Invite, 900));
    assert_eq!(manager.last_used(1, Command::Invite), Some(100));
    assert!(manager.check_and_record(1, Command::Invite, 1100));
    assert_eq!(manager.last_used(1, Command::Invite), Some(1100));
}

#[test]
fn members_and_commands_have_separate_cooldowns() {
    let mut manager = CooldownManager::with_cooldown(1000);
    assert!(manager.check_and_record(1, Command::Invite, 100));
    assert!(manager.check_and_record(2, Command::Invite, 100));
    assert!(manager.check_and_record(1, Command::CreatorChannel, 100));
    assert!(!manager.check_and_record(1, Command::Invite, 200));
    assert!(!manager.check_and_record(2, Command::Invite, 200));
    assert!(!manager.check_and_record(1, Command::CreatorChannel, 200));
    assert_eq!(manager.last_used(2, Command::CreatorChannel), None);
}

#[test]
fn a_clock_that_went_back_is_refused() {
    let mut manager = CooldownManager::with_cooldown(10);
    assert!(manager.check_and_record(1, Command::Invite, 1000));
    assert!(!manager.check_and_record(1, Command::Invite, 500));
    assert_eq!(manager.last_used(1, Command::Invite), Some(1000));
}

#[test]
fn zero_cooldown_permits_every_use_in_order() {
    let mut manager = CooldownManager::with_cooldown(0);
    assert!(manager.check_and_record(1, Command::Invite, 7));
    assert!(manager.check_and_record(1, Command::Invite, 7));
    assert!(manager.check_and_record(1, Command::Invite, 8));
}

#[test]
fn times_near_the_end_of_the_range() {
    let mut manager = CooldownManager::with_cooldown(u64::MAX);
    assert!(manager.check_and_record(1, Command::Invite, 0));
    assert!(!manager.check_and_record(1, Command::Invite, u64::MAX - 1));
    assert!(manager.check_and_record(1, Command::Invite, u64::MAX));
}

#[test]
fn new_manager_has_the_default_cooldown() {
    let manager = CooldownManager::new();
    assert_eq!(manager.cooldown_millis(), DEFAULT_COOLDOWN_MILLIS);
    assert_eq!(manager.cooldown_millis(), 60000);
    assert_eq!(manager.last_used(1, Command::Invite), None);
}

#[test]
fn handler_gates_with_the_default_cooldown() {
    let mut handler = Handler::new();
    assert!(handler.check_and_record(9, Command::Invite, 1));
    assert!(!handler.check_and_record(9, Command::Invite, 60000));
    assert!(handler.check_and_record(9, Command::Invite, 60001));
    assert!(handler.check_and_record(8, Command::Invite, 60001));
}

#[test]
fn command_names_are_routed() {
    assert_eq!(route_command("invite"), Some(Command::Invite));
    assert_eq!(route_command("creator-channel"), Some(Command::CreatorChannel));
    assert_eq!(route_command("Invite"), None);
    assert_eq!(route_command("invite "), None);
    assert_eq!(route_command(""), None);
    assert_eq!(route_command("creator_channel"), None);
}

#[test]
fn command_names_round_trip() {
    assert_eq!(Command::Invite.name(), "invite");
    assert_eq!(Command::CreatorChannel.name(), "creator-channel");
    assert_eq!(route_command(Command::Invite.name()), Some(Command::Invite));
    assert_eq!(route_command(Command::CreatorChannel.name()), Some(Command::CreatorChannel));
}
