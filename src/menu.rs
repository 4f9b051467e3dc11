//! The idle menu, with the blind-signing setting, and the menu shown while busy.
use vstd::prelude::*;

verus! {

/// The persisted blind-signing flag: 0 off, 1 on.
#[derive(Clone, Copy, Debug, PartialEq, Eq, Structural)]
pub struct Settings {
    pub blind_signing: u8,
}

impl Settings {
    pub fn get(&self) -> (r: u8)
        ensures
            r == self.blind_signing,
    {
        self.blind_signing
    }

    pub fn set(&mut self, v: &u8)
        ensures
            final(self).blind_signing == *v,
    {
        self.blind_signing = *v;
    }
}

#[derive(Clone, Copy, Debug, PartialEq, Eq, Structural)]
pub enum SettingsSubMenu {
    EnableBlindSigning,
    DisableBlindSigning,
    Back,
}

#[derive(Clone, Copy, Debug, PartialEq, Eq, Structural)]
pub enum IdleMenu {
    AppMain,
    ShowVersion,
    Settings(Option<SettingsSubMenu>),
    Exit,
}

pub struct IdleMenuWithSettings {
    pub idle_menu: IdleMenu,
    pub settings: Settings,
}

/// Asks the application to quit.
pub struct DoExitApp;

/// Asks for the running request to be cancelled.
pub struct DoCancel;

#[derive(Clone, Copy, Debug, PartialEq, Eq, Structural)]
pub enum BusyMenu {
    Working,
    Cancel,
}

/// An icon drawn above a menu entry.
#[derive(Clone, Copy, Debug, PartialEq, Eq, Structural)]
pub enum MenuIcon {
    App,
    Settings,
    Back,
    Dashboard,
}

/// The upper half of a menu entry.
#[derive(Clone, Copy, Debug)]
pub enum MenuLabelTop {
    Icon(MenuIcon),
    Text(&'static str),
}

/// The lower half of a menu entry.
#[derive(Clone, Copy, Debug)]
pub struct MenuLabelBottom {
    pub text: &'static str,
    pub bold: bool,
}

/// The blind-signing entry that shows the current setting: it offers to disable
/// when on (1), and to enable otherwise.
pub open spec fn toggle_entry(setting: u8) -> IdleMenu {
    if setting == 1 {
        IdleMenu::Settings(Some(SettingsSubMenu::DisableBlindSigning))
    } else {
        IdleMenu::Settings(Some(SettingsSubMenu::EnableBlindSigning))
    }
}

/// The entry to the left: the top level goes round main, version, settings, quit;
/// inside settings, the toggle and "Back" alternate.
pub open spec fn left_of(m: IdleMenu, setting: u8) -> IdleMenu {
    match m {
        IdleMenu::AppMain => IdleMenu::Exit,
        IdleMenu::ShowVersion => IdleMenu::AppMain,
        IdleMenu::Settings(None) => IdleMenu::ShowVersion,
        IdleMenu::Settings(Some(SettingsSubMenu::Back)) => toggle_entry(setting),
        IdleMenu::Settings(Some(_)) => IdleMenu::Settings(Some(SettingsSubMenu::Back)),
        IdleMenu::Exit => IdleMenu::Settings(None),
    }
}

pub open spec fn right_of(m: IdleMenu, setting: u8) -> IdleMenu {
    match m {
        IdleMenu::AppMain => IdleMenu::ShowVersion,
        IdleMenu::ShowVersion => IdleMenu::Settings(None),
        IdleMenu::Settings(None) => IdleMenu::Exit,
        IdleMenu::Settings(Some(SettingsSubMenu::Back)) => toggle_entry(setting),
        IdleMenu::Settings(Some(_)) => IdleMenu::Settings(Some(SettingsSubMenu::Back)),
        IdleMenu::Exit => IdleMenu::AppMain,
    }
}

impl IdleMenuWithSettings {
    fn toggle_entry(&self) -> (r: IdleMenu)
        ensures
            r == toggle_entry(self.settings.blind_signing),
    {
        if self.settings.get() == 1 {
            IdleMenu::Settings(Some(SettingsSubMenu::DisableBlindSigning))
        } else {
            IdleMenu::Settings(Some(SettingsSubMenu::EnableBlindSigning))
        }
    }

    pub fn move_left(&mut self)
        ensures
            final(self).settings == old(self).settings,
            final(self).idle_menu == left_of(old(self).idle_menu, old(self).settings.blind_signing),
    {
        self.idle_menu = match self.idle_menu {
            IdleMenu::AppMain => IdleMenu::Exit,
            IdleMenu::ShowVersion => IdleMenu::AppMain,
            IdleMenu::Settings(None) => IdleMenu::ShowVersion,
            IdleMenu::Settings(Some(SettingsSubMenu::Back)) => self.toggle_entry(),
            IdleMenu::Settings(Some(_)) => IdleMenu::Settings(Some(SettingsSubMenu::Back)),
            IdleMenu::Exit => IdleMenu::Settings(None),
        };
    }

    pub fn move_right(&mut self)
        ensures
            final(self).settings == old(self).settings,
            final(self).idle_menu == right_of(
                old(self).idle_menu,
                old(self).settings.blind_signing,
            ),
    {
        self.idle_menu = match self.idle_menu {
            IdleMenu::AppMain => IdleMenu::ShowVersion,
            IdleMenu::ShowVersion => IdleMenu::Settings(None),
            IdleMenu::Settings(None) => IdleMenu::Exit,
            IdleMenu::Settings(Some(SettingsSubMenu::Back)) => self.toggle_entry(),
            IdleMenu::Settings(Some(_)) => IdleMenu::Settings(Some(SettingsSubMenu::Back)),
            IdleMenu::Exit => IdleMenu::AppMain,
        };
    }

    /// Both buttons: enters settings, switches blind signing on or off (the entry
    /// then offers the opposite), leaves settings, or asks to quit.
    pub fn handle_both(&mut self) -> (r: Option<DoExitApp>)
        ensures
            r is Some <==> old(self).idle_menu == IdleMenu::Exit,
            old(self).idle_menu == IdleMenu::Settings(Some(SettingsSubMenu::EnableBlindSigning))
                ==> final(self).settings.blind_signing == 1 && final(self).idle_menu
                == IdleMenu::Settings(Some(SettingsSubMenu::DisableBlindSigning)),
            old(self).idle_menu == IdleMenu::Settings(Some(SettingsSubMenu::DisableBlindSigning))
                ==> final(self).settings.blind_signing == 0 && final(self).idle_menu
                == IdleMenu::Settings(Some(SettingsSubMenu::EnableBlindSigning)),
            old(self).idle_menu == IdleMenu::Settings(None) ==> final(self).settings
                == old(self).settings && final(self).idle_menu
                == toggle_entry(old(self).settings.blind_signing),
            old(self).idle_menu == IdleMenu::Settings(Some(SettingsSubMenu::Back))
                ==> final(self).settings == old(self).settings && final(self).idle_menu
                == IdleMenu::Settings(None),
            (old(self).idle_menu == IdleMenu::AppMain || old(self).idle_menu
                == IdleMenu::ShowVersion || old(self).idle_menu == IdleMenu::Exit) ==> final(self).idle_menu
                == old(self).idle_menu && final(self).settings == old(self).settings,
    {
        match self.idle_menu {
            IdleMenu::AppMain => None,
            IdleMenu::ShowVersion => None,
            IdleMenu::Settings(None) => {
                self.idle_menu = self.toggle_entry();
                None
            },
            IdleMenu::Settings(Some(SettingsSubMenu::EnableBlindSigning)) => {
                self.settings.set(&1);
                self.idle_menu = IdleMenu::Settings(Some(SettingsSubMenu::DisableBlindSigning));
                None
            },
            IdleMenu::Settings(Some(SettingsSubMenu::DisableBlindSigning)) => {
                self.settings.set(&0);
                self.idle_menu = IdleMenu::Settings(Some(SettingsSubMenu::EnableBlindSigning));
                None
            },
            IdleMenu::Settings(Some(SettingsSubMenu::Back)) => {
                self.idle_menu = IdleMenu::Settings(None);
                None
            },
            IdleMenu::Exit => Some(DoExitApp),
        }
    }

    /// What the current entry shows; `version` is the application's version text.
    pub fn label(&self, version: &'static str) -> (r: (MenuLabelTop, MenuLabelBottom))
        ensures
            match self.idle_menu {
                IdleMenu::AppMain => r.0 == MenuLabelTop::Icon(MenuIcon::App) && r.1.text@
                    == "IOTA"@ && r.1.bold,
                IdleMenu::ShowVersion => r.0 == MenuLabelTop::Text("Version") && r.1.text@
                    == version@ && !r.1.bold,
                IdleMenu::Settings(None) => r.0 == MenuLabelTop::Icon(MenuIcon::Settings)
                    && r.1.text@ == "Settings"@ && r.1.bold,
                IdleMenu::Settings(Some(SettingsSubMenu::EnableBlindSigning)) => r.0
                    == MenuLabelTop::Text("Blind Signing") && r.1.text@ == "Disabled"@
                    && !r.1.bold,
                IdleMenu::Settings(Some(SettingsSubMenu::DisableBlindSigning)) => r.0
                    == MenuLabelTop::Text("Blind Signing") && r.1.text@ == "Enabled"@
                    && !r.1.bold,
                IdleMenu::Settings(Some(SettingsSubMenu::Back)) => r.0 == MenuLabelTop::Icon(
                    MenuIcon::Back,
                ) && r.1.text@ == "Back"@ && r.1.bold,
                IdleMenu::Exit => r.0 == MenuLabelTop::Icon(MenuIcon::Dashboard) && r.1.text@
                    == "Quit"@ && r.1.bold,
            },
    {
        match self.idle_menu {
            IdleMenu::AppMain => (
                MenuLabelTop::Icon(MenuIcon::App),
                MenuLabelBottom { text: "IOTA", bold: true },
            ),
            IdleMenu::ShowVersion => (
                MenuLabelTop::Text("Version"),
                MenuLabelBottom { text: version, bold: false },
            ),
            IdleMenu::Settings(None) => (
                MenuLabelTop::Icon(MenuIcon::Settings),
                MenuLabelBottom { text: "Settings", bold: true },
            ),
            IdleMenu::Settings(Some(SettingsSubMenu::EnableBlindSigning)) => (
                MenuLabelTop::Text("Blind Signing"),
                MenuLabelBottom { text: "Disabled", bold: false },
            ),
            IdleMenu::Settings(Some(SettingsSubMenu::DisableBlindSigning)) => (
                MenuLabelTop::Text("Blind Signing"),
                MenuLabelBottom { text: "Enabled", bold: false },
            ),
            IdleMenu::Settings(Some(SettingsSubMenu::Back)) => (
                MenuLabelTop::Icon(MenuIcon::Back),
                MenuLabelBottom { text: "Back", bold: true },
            ),
            IdleMenu::Exit => (
                MenuLabelTop::Icon(MenuIcon::Dashboard),
                MenuLabelBottom { text: "Quit", bold: true },
            ),
        }
    }
}

impl BusyMenu {
    pub fn move_left(&mut self)
        ensures
            *final(self) == BusyMenu::Working,
    {
        *self = BusyMenu::Working;
    }

    pub fn move_right(&mut self)
        ensures
            *final(self) == BusyMenu::Cancel,
    {
        *self = BusyMenu::Cancel;
    }

    /// Both buttons: asks to cancel when "Cancel" is shown.
    pub fn handle_both(&mut self) -> (r: Option<DoCancel>)
        ensures
            *final(self) == *old(self),
            r is Some <==> *old(self) == BusyMenu::Cancel,
    {
        match self {
            BusyMenu::Working => None,
            BusyMenu::Cancel => Some(DoCancel),
        }
    }

    pub fn label(&self) -> (r: (MenuLabelTop, MenuLabelBottom))
        ensures
            r.1.text@ == ""@ && !r.1.bold,
            *self == BusyMenu::Working ==> r.0 == MenuLabelTop::Text("Working..."),
            *self == BusyMenu::Cancel ==> r.0 == MenuLabelTop::Text("Cancel"),
    {
        match self {
            BusyMenu::Working => (
                MenuLabelTop::Text("Working..."),
                MenuLabelBottom { text: "", bold: false },
            ),
            BusyMenu::Cancel => (MenuLabelTop::Text("Cancel"), MenuLabelBottom { text: "", bold: false }),
        }
    }
}

} // verus!
