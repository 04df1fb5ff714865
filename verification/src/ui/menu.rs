//! The main menu: its address and name fields, and which of its two pages is
//! shown.

use vstd::prelude::*;
use vstd::string::*;

verus! {

/// What the main menu asks the game to do after a frame.
pub enum MenuAction {
    /// Stay in the menu.
    Nothing,
    /// Connect to `server` as `username`.
    Connect { server: String, username: String },
    /// Leave the game.
    Quit,
}

/// What the user did in the menu during a frame.
#[derive(Clone, Copy, Debug, PartialEq, Eq, Structural)]
pub enum MenuEvent {
    /// The "Direct Connect" button on the first page.
    DirectConnectPressed,
    /// The "Quit Game" button on the first page.
    QuitPressed,
    /// The "Back" button of the connect form.
    BackPressed,
    /// The "Connect" button of the connect form, or Enter in its address field.
    ConnectPressed,
}

/// The menu by its field contents and page.
pub struct MenuView {
    pub server_address: Seq<char>,
    pub username: Seq<char>,
    pub show_connect: bool,
}

/// The main menu's state.
pub struct MainMenu {
    server_address: String,
    username: String,
    show_connect: bool,
}

impl View for MainMenu {
    type V = MenuView;

    closed spec fn view(&self) -> MenuView {
        MenuView { server_address: self.server_address@, username: self.username@, show_connect: self.show_connect }
    }
}

/// Whether `event` comes from a button of the page shown: "Direct Connect"
/// and "Quit Game" are on the first page, "Back" and "Connect" on the form.
pub open spec fn offered(show_connect: bool, event: MenuEvent) -> bool {
    match event {
        MenuEvent::DirectConnectPressed | MenuEvent::QuitPressed => !show_connect,
        MenuEvent::BackPressed | MenuEvent::ConnectPressed => show_connect,
    }
}

/// The menu's page after `event`.
pub open spec fn show_connect_after(show_connect: bool, event: MenuEvent) -> bool {
    if !offered(show_connect, event) {
        show_connect
    } else {
        match event {
            MenuEvent::DirectConnectPressed => true,
            MenuEvent::BackPressed => false,
            _ => show_connect,
        }
    }
}

impl MainMenu {
    /// The menu on its first page, with the address of a local server and a
    /// default player name filled in.
    pub fn new() -> (r: Self)
        ensures
            r@ == (MenuView { server_address: "localhost:25565"@, username: "Steve"@, show_connect: false }),
    {
        MainMenu {
            server_address: String::from_str("localhost:25565"),
            username: String::from_str("Steve"),
            show_connect: false,
        }
    }

    /// The server address field.
    pub fn server_address(&self) -> (r: &str)
        ensures
            r@ == self@.server_address,
    {
        self.server_address.as_str()
    }

    /// The player name field.
    pub fn username(&self) -> (r: &str)
        ensures
            r@ == self@.username,
    {
        self.username.as_str()
    }

    /// Whether the connect form is shown rather than the first page.
    pub fn shows_connect_form(&self) -> (r: bool)
        ensures
            r == self@.show_connect,
    {
        self.show_connect
    }

    /// Replaces the server address field.
    pub fn set_server_address(&mut self, address: String)
        ensures
            final(self)@ == (MenuView { server_address: address@, ..old(self)@ }),
    {
        self.server_address = address;
    }

    /// Replaces the player name field.
    pub fn set_username(&mut self, username: String)
        ensures
            final(self)@ == (MenuView { username: username@, ..old(self)@ }),
    {
        self.username = username;
    }

    /// Reacts to what the user did: the buttons switch between the pages,
    /// "Quit Game" asks to quit, and connecting asks to connect to the address
    /// in the form under the name in the form. An event from a button of the
    /// page not shown is ignored.
    pub fn handle(&mut self, event: MenuEvent) -> (r: MenuAction)
        ensures
            final(self)@ == (MenuView { show_connect: show_connect_after(old(self)@.show_connect, event), ..old(self)@ }),
            !offered(old(self)@.show_connect, event) ==> r is Nothing,
            offered(old(self)@.show_connect, event) ==> {
                &&& event == MenuEvent::QuitPressed ==> r is Quit
                &&& event == MenuEvent::ConnectPressed ==> (r matches MenuAction::Connect { server, username }
                    && server@ == old(self)@.server_address && username@ == old(self)@.username)
                &&& (event == MenuEvent::DirectConnectPressed || event == MenuEvent::BackPressed) ==> r is Nothing
            },
    {
        match event {
            MenuEvent::DirectConnectPressed => {
                if !self.show_connect {
                    self.show_connect = true;
                }
                MenuAction::Nothing
            },
            MenuEvent::QuitPressed => if self.show_connect {
                MenuAction::Nothing
            } else {
                MenuAction::Quit
            },
            MenuEvent::BackPressed => {
                if self.show_connect {
                    self.show_connect = false;
                }
                MenuAction::Nothing
            },
            MenuEvent::ConnectPressed => if self.show_connect {
                MenuAction::Connect { server: self.server_address.clone(), username: self.username.clone() }
            } else {
                MenuAction::Nothing
            },
        }
    }
}

} // verus!
