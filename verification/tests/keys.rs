use leek::keys::{action_for, Action, Key};

#[test]
fn every_bound_key_gives_its_action() {
    assert_eq!(action_for(Key::Char('q')), Some(Action::Quit));
    assert_eq!(action_for(Key::Esc), Some(Action::Quit));
    assert_eq!(action_for(Key::Char(' ')), Some(Action::TogglePlay));
    assert_eq!(action_for(Key::Up), Some(Action::PrevItem));
    assert_eq!(action_for(Key::Char('k')), Some(Action::PrevItem));
    assert_eq!(action_for(Key::Down), Some(Action::NextItem));
    assert_eq!(action_for(Key::Char('j')), Some(Action::NextItem));
    assert_eq!(action_for(Key::PageUp), Some(Action::VolumeUp));
    assert_eq!(action_for(Key::PageDown), Some(Action::VolumeDown));
    assert_eq!(action_for(Key::Enter), Some(Action::EnterSelected));
    assert_eq!(action_for(Key::Tab), Some(Action::PlayFolder));
    assert_eq!(action_for(Key::Backspace), Some(Action::GoUp));
    assert_eq!(action_for(Key::Left), Some(Action::PrevTrack));
    assert_eq!(action_for(Key::Right), Some(Action::NextTrack));
}

#[test]
fn other_keys_give_nothing() {
    assert_eq!(action_for(Key::Other), None);
    assert_eq!(action_for(Key::Char('Q')), None);
    assert_eq!(action_for(Key::Char('x')), None);
    assert_eq!(action_for(Key::Char('J')), None);
}
