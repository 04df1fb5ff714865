use pomc::ui::menu::{MainMenu, MenuAction, MenuEvent};

#[test]
fn new_menu_has_defaults() {
    let menu = MainMenu::new();
    assert_eq!(menu.server_address(), "localhost:25565");
    assert_eq!(menu.username(), "Steve");
    assert!(!menu.shows_connect_form());
}

#[test]
fn direct_connect_opens_the_form_and_back_closes_it() {
    let mut menu = MainMenu::new();
    assert!(matches!(menu.handle(MenuEvent::DirectConnectPressed), MenuAction::Nothing));
    assert!(menu.shows_connect_form());
    assert!(matches!(menu.handle(MenuEvent::BackPressed), MenuAction::Nothing));
    assert!(!menu.shows_connect_form());
}

#[test]
fn quit_asks_to_quit() {
    let mut menu = MainMenu::new();
    assert!(matches!(menu.handle(MenuEvent::QuitPressed), MenuAction::Quit));
    assert!(!menu.shows_connect_form());
}

#[test]
fn connect_uses_the_fields() {
    let mut menu = MainMenu::new();
    menu.handle(MenuEvent::DirectConnectPressed);
    menu.set_server_address("mc.example.org:25570".to_string());
    menu.set_username("Alex".to_string());
    match menu.handle(MenuEvent::ConnectPressed) {
        MenuAction::Connect { server, username } => {
            assert_eq!(server, "mc.example.org:25570");
            assert_eq!(username, "Alex");
        }
        _ => panic!("expected a connect action"),
    }
    assert!(menu.shows_connect_form());
}

#[test]
fn events_of_the_other_page_are_ignored() {
    let mut menu = MainMenu::new();
    assert!(matches!(menu.handle(MenuEvent::ConnectPressed), MenuAction::Nothing));
    assert!(matches!(menu.handle(MenuEvent::BackPressed), MenuAction::Nothing));
    assert!(!menu.shows_connect_form());
    menu.handle(MenuEvent::DirectConnectPressed);
    assert!(matches!(menu.handle(MenuEvent::QuitPressed), MenuAction::Nothing));
    assert!(matches!(menu.handle(MenuEvent::DirectConnectPressed), MenuAction::Nothing));
    assert!(menu.shows_connect_form());
}
