use iota_app::menu::{
    BusyMenu, IdleMenu, IdleMenuWithSettings, MenuIcon, MenuLabelTop, Settings, SettingsSubMenu,
};

fn menu(m: IdleMenu, s: u8) -> IdleMenuWithSettings {
    IdleMenuWithSettings { idle_menu: m, settings: Settings { blind_signing: s } }
}

#[test]
fn top_level_cycles() {
    let mut m = menu(IdleMenu::AppMain, 0);
    m.move_right();
    assert_eq!(m.idle_menu, IdleMenu::ShowVersion);
    m.move_right();
    assert_eq!(m.idle_menu, IdleMenu::Settings(None));
    m.move_right();
    assert_eq!(m.idle_menu, IdleMenu::Exit);
    m.move_right();
    assert_eq!(m.idle_menu, IdleMenu::AppMain);
    m.move_left();
    assert_eq!(m.idle_menu, IdleMenu::Exit);
    m.move_left();
    assert_eq!(m.idle_menu, IdleMenu::Settings(None));
}

#[test]
fn blind_signing_toggle() {
    let mut m = menu(IdleMenu::Settings(None), 0);
    assert!(m.handle_both().is_none());
    assert_eq!(m.idle_menu, IdleMenu::Settings(Some(SettingsSubMenu::EnableBlindSigning)));
    assert!(m.handle_both().is_none());
    assert_eq!(m.settings.get(), 1);
    assert_eq!(m.idle_menu, IdleMenu::Settings(Some(SettingsSubMenu::DisableBlindSigning)));
    m.move_right();
    assert_eq!(m.idle_menu, IdleMenu::Settings(Some(SettingsSubMenu::Back)));
    m.move_left();
    assert_eq!(m.idle_menu, IdleMenu::Settings(Some(SettingsSubMenu::DisableBlindSigning)));
    assert!(m.handle_both().is_none());
    assert_eq!(m.settings.get(), 0);
    m.move_left();
    assert!(m.handle_both().is_none());
    assert_eq!(m.idle_menu, IdleMenu::Settings(None));
}

#[test]
fn exit_entry_quits() {
    let mut m = menu(IdleMenu::Exit, 0);
    assert!(m.handle_both().is_some());
    let mut a = menu(IdleMenu::AppMain, 1);
    assert!(a.handle_both().is_none());
    assert_eq!(a.idle_menu, IdleMenu::AppMain);
}

#[test]
fn idle_labels() {
    let (top, bottom) = menu(IdleMenu::AppMain, 0).label("1.2.3");
    assert!(matches!(top, MenuLabelTop::Icon(MenuIcon::App)));
    assert_eq!(bottom.text, "IOTA");
    assert!(bottom.bold);
    let (top, bottom) = menu(IdleMenu::ShowVersion, 0).label("1.2.3");
    assert!(matches!(top, MenuLabelTop::Text("Version")));
    assert_eq!(bottom.text, "1.2.3");
    let (_, bottom) =
        menu(IdleMenu::Settings(Some(SettingsSubMenu::EnableBlindSigning)), 0).label("1");
    assert_eq!(bottom.text, "Disabled");
    let (top, bottom) = menu(IdleMenu::Exit, 0).label("1");
    assert!(matches!(top, MenuLabelTop::Icon(MenuIcon::Dashboard)));
    assert_eq!(bottom.text, "Quit");
}

#[test]
fn busy_menu() {
    let mut b = BusyMenu::Working;
    assert!(b.handle_both().is_none());
    b.move_right();
    assert_eq!(b, BusyMenu::Cancel);
    assert!(b.handle_both().is_some());
    let (top, bottom) = b.label();
    assert!(matches!(top, MenuLabelTop::Text("Cancel")));
    assert_eq!(bottom.text, "");
    b.move_left();
    assert_eq!(b, BusyMenu::Working);
}
