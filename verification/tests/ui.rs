use bevy_gutzgutz::ui::{GutzUiStack, GutzUiTopChange};

#[derive(Clone, Copy, Debug, PartialEq, Eq)]
enum Screen {
    Title,
    Menu,
    Cleared,
}

#[test]
fn only_the_top_screen_is_active() {
    let mut stack = GutzUiStack::new();
    assert_eq!(stack.top(), None);
    assert_eq!(stack.push(Screen::Title), GutzUiTopChange { closed: None, opened: Some(Screen::Title) });
    assert_eq!(
        stack.push(Screen::Menu),
        GutzUiTopChange { closed: Some(Screen::Title), opened: Some(Screen::Menu) }
    );
    assert_eq!(stack.top(), Some(Screen::Menu));
    assert_eq!(stack.pop(), GutzUiTopChange { closed: Some(Screen::Menu), opened: Some(Screen::Title) });
    assert_eq!(stack.top(), Some(Screen::Title));
}

#[test]
fn clearing_closes_the_top_screen() {
    let mut stack = GutzUiStack::new();
    stack.push(Screen::Title);
    stack.push(Screen::Cleared);
    assert_eq!(stack.clear(), GutzUiTopChange { closed: Some(Screen::Cleared), opened: None });
    assert!(stack.is_empty());
    assert_eq!(stack.clear(), GutzUiTopChange { closed: None, opened: None });
    assert_eq!(stack.pop(), GutzUiTopChange { closed: None, opened: None });
}
