use temp_voice::model::CreatorVoiceConfig;
use temp_voice::numbers::{NumberAllocator, MAX_NUMBER};

#[test]
fn next_number_of_empty_set_is_one() {
    let allocator = NumberAllocator::new();
    assert_eq!(allocator.get_next_number(), Some(1));
    assert_eq!(allocator.len(), 0);
}

#[test]
fn next_number_fills_the_first_gap() {
    let mut allocator = NumberAllocator::new();
    assert!(allocator.add_number(1));
    assert!(allocator.add_number(3));
    assert_eq!(allocator.get_next_number(), Some(2));
}

#[test]
fn next_number_follows_a_dense_prefix() {
    let mut allocator = NumberAllocator::new();
    for n in [3u16, 1, 2, 4] {
        assert!(allocator.add_number(n));
    }
    assert_eq!(allocator.get_next_number(), Some(5));
}

#[test]
fn next_number_skips_nothing_when_one_is_missing() {
    let mut allocator = NumberAllocator::new();
    for n in [2u16, 3, 4] {
        assert!(allocator.add_number(n));
    }
    assert_eq!(allocator.get_next_number(), Some(1));
}

#[test]
fn next_number_is_a_pure_query() {
    let mut allocator = NumberAllocator::new();
    assert!(allocator.add_number(1));
    assert_eq!(allocator.get_next_number(), Some(2));
    assert_eq!(allocator.get_next_number(), Some(2));
    assert_eq!(allocator.len(), 1);
    assert!(!allocator.contains(2));
}

#[test]
fn next_number_after_adds_and_removes() {
    let mut allocator = NumberAllocator::new();
    let mut model: Vec<u16> = Vec::new();
    let steps: [(bool, u16); 14] = [
        (true, 1),
        (true, 2),
        (true, 5),
        (false, 1),
        (true, 3),
        (true, 1),
        (false, 9),
        (false, 2),
        (true, 4),
        (true, 2),
        (false, 5),
        (true, 6),
        (false, 3),
        (false, 3),
    ];
    for (add, n) in steps {
        if add {
            let expected = !model.contains(&n);
            assert_eq!(allocator.add_number(n), expected);
            if expected {
                model.push(n);
            }
        } else {
            allocator.remove_number(n);
            model.retain(|m| *m != n);
        }
        let mut smallest = 1u16;
        while model.contains(&smallest) {
            smallest += 1;
        }
        assert_eq!(allocator.get_next_number(), Some(smallest));
        assert_eq!(allocator.len(), model.len());
        assert_eq!(allocator.get_highest_number(), model.iter().copied().max());
    }
}

#[test]
fn add_present_number_fails_and_changes_nothing() {
    let mut allocator = NumberAllocator::new();
    assert!(allocator.add_number(4));
    assert!(allocator.add_number(2));
    assert!(!allocator.add_number(4));
    assert_eq!(allocator.len(), 2);
    assert!(allocator.contains(2));
    assert!(allocator.contains(4));
    assert_eq!(allocator.get_next_number(), Some(1));
    assert_eq!(allocator.get_highest_number(), Some(4));
}

#[test]
fn add_zero_fails_and_changes_nothing() {
    let mut allocator = NumberAllocator::new();
    assert!(!allocator.add_number(0));
    assert_eq!(allocator.len(), 0);
    assert!(!allocator.contains(0));
}

#[test]
fn remove_absent_number_twice_equals_once() {
    let mut once = NumberAllocator::new();
    let mut twice = NumberAllocator::new();
    for n in [1u16, 2, 7] {
        assert!(once.add_number(n));
        assert!(twice.add_number(n));
    }
    once.remove_number(5);
    twice.remove_number(5);
    twice.remove_number(5);
    for n in 0u16..10 {
        assert_eq!(once.contains(n), twice.contains(n));
    }
    assert_eq!(once.len(), 3);
    assert_eq!(twice.len(), 3);
}

#[test]
fn remove_present_number_twice_equals_once() {
    let mut allocator = NumberAllocator::new();
    for n in [1u16, 2, 3] {
        assert!(allocator.add_number(n));
    }
    allocator.remove_number(2);
    assert_eq!(allocator.len(), 2);
    assert_eq!(allocator.get_next_number(), Some(2));
    allocator.remove_number(2);
    assert_eq!(allocator.len(), 2);
    assert!(allocator.contains(1));
    assert!(allocator.contains(3));
}

#[test]
fn highest_number_of_empty_set_is_none() {
    let allocator = NumberAllocator::new();
    assert_eq!(allocator.get_highest_number(), None);
}

#[test]
fn highest_number_is_never_none_after_an_add() {
    let mut allocator = NumberAllocator::new();
    assert!(allocator.add_number(7));
    assert_eq!(allocator.get_highest_number(), Some(7));
    assert!(allocator.add_number(3));
    assert_eq!(allocator.get_highest_number(), Some(7));
    assert!(allocator.add_number(9));
    assert_eq!(allocator.get_highest_number(), Some(9));
    allocator.remove_number(9);
    assert_eq!(allocator.get_highest_number(), Some(7));
}

#[test]
fn full_allocator_has_no_next_number() {
    let mut allocator = NumberAllocator::new();
    for n in 1..=MAX_NUMBER {
        assert!(allocator.add_number(n));
    }
    assert_eq!(allocator.len(), 65535);
    assert_eq!(allocator.get_next_number(), None);
    assert_eq!(allocator.get_highest_number(), Some(65535));
    allocator.remove_number(40000);
    assert_eq!(allocator.get_next_number(), Some(40000));
}

#[test]
fn largest_number_can_be_allocated() {
    let mut allocator = NumberAllocator::new();
    assert!(allocator.add_number(MAX_NUMBER));
    assert!(allocator.contains(65535));
    assert_eq!(allocator.get_next_number(), Some(1));
}

#[test]
fn config_starts_without_numbers() {
    let config = CreatorVoiceConfig::new(1, 2, 3, String::from("Room #{number}"), 4);
    assert_eq!(config.guild_id(), 1);
    assert_eq!(config.creator_id(), 2);
    assert_eq!(config.category_id(), 3);
    assert_eq!(config.naming_standard().as_str(), "Room #{number}");
    assert_eq!(config.user_limit(), 4);
    assert_eq!(config.number_count(), 0);
    assert_eq!(config.get_next_number(), Some(1));
    assert_eq!(config.get_highest_number(), None);
}

#[test]
fn config_allocates_like_its_allocator() {
    let mut config = CreatorVoiceConfig::new(1, 2, 3, String::from("x"), 0);
    assert!(config.add_number(1));
    assert!(config.add_number(3));
    assert!(!config.add_number(3));
    assert_eq!(config.get_next_number(), Some(2));
    assert_eq!(config.get_highest_number(), Some(3));
    config.remove_number(1);
    config.remove_number(1);
    assert!(!config.has_number(1));
    assert!(config.has_number(3));
    assert_eq!(config.number_count(), 1);
    assert_eq!(config.get_next_number(), Some(1));
}

#[test]
fn config_update_keeps_numbers() {
    let mut config = CreatorVoiceConfig::new(1, 2, 3, String::from("x"), 0);
    assert!(config.add_number(2));
    config.update(9, 8, String::from("y"), 7);
    assert_eq!(config.guild_id(), 9);
    assert_eq!(config.creator_id(), 2);
    assert_eq!(config.category_id(), 8);
    assert_eq!(config.naming_standard().as_str(), "y");
    assert_eq!(config.user_limit(), 7);
    assert!(config.has_number(2));
}
