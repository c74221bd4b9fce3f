//! The state of the interactive pages: what each key changes, apart from
//! the terminal that shows it.
pub mod decrypt;
pub mod decryptmenu;
pub mod encryptmenu;
pub mod line;
pub mod mainmenu;
pub mod widgets;

pub use widgets::Prompt;

use decryptmenu::{Decrypt, DecryptView, RowSelection};
use encryptmenu::{Encrypt, EncryptView, PageLayout};
use mainmenu::{menu_action, MenuAction, MENU_ROWS};
use vstd::prelude::*;
use widgets::PromptView;

verus! {

/// A key of the keyboard.
#[derive(Debug, Clone, Copy, PartialEq, Eq, Structural)]
pub enum Key {
    Esc,
    Char(char),
    Delete,
    Backspace,
    Left,
    Right,
    Up,
    Down,
    Home,
    End,
    Enter,
    PageUp,
    PageDown,
    /// Any other key.
    Other,
}

/// The page that is shown.
#[derive(Debug, Clone, Copy, PartialEq, Eq, Structural)]
pub enum Mode {
    MainMenu,
    Decrypt,
    Encrypt,
    /// No page: the program ends.
    Quit,
}

impl Default for Mode {
    fn default() -> (mode: Self)
        ensures
            mode == Mode::MainMenu,
    {
        Mode::MainMenu
    }
}

/// What the list of the menu is asked to do after a key.
#[derive(Debug, Clone, Copy, PartialEq, Eq, Structural)]
pub enum ListAction {
    /// Nothing.
    Ignore,
    /// To select the row before the selected one.
    SelectPrevious,
    /// To select the row after the selected one.
    SelectNext,
    /// To select the first row.
    SelectFirst,
    /// To select this row.
    Select(usize),
}

/// The state of the program.
pub struct App {
    mode: Mode,
    decrypt: Decrypt,
    encrypt: Encrypt,
}

/// The state of the program as mathematical values.
pub struct AppView {
    pub mode: Mode,
    pub decrypt: DecryptView,
    pub encrypt: EncryptView,
}

impl View for App {
    type V = AppView;

    closed spec fn view(&self) -> AppView {
        AppView { mode: self.mode, decrypt: self.decrypt@, encrypt: self.encrypt@ }
    }
}

/// A prompt that is empty and has the focus.
pub open spec fn fresh_prompt() -> PromptView {
    PromptView { input: Seq::empty(), cursor_index: 0, has_focus: true }
}

/// The menu leads to the pages and to the end; the pages lead back to the
/// menu.
pub open spec fn is_transition(from: Mode, to: Mode) -> bool {
    match (from, to) {
        (Mode::MainMenu, Mode::Decrypt) => true,
        (Mode::MainMenu, Mode::Encrypt) => true,
        (Mode::MainMenu, Mode::Quit) => true,
        (Mode::Decrypt, Mode::MainMenu) => true,
        (Mode::Encrypt, Mode::MainMenu) => true,
        _ => false,
    }
}

impl AppView {
    /// The program in another mode. A page that opens has an empty prompt
    /// with the focus.
    pub open spec fn after_change_mode(self, mode: Mode) -> AppView {
        match mode {
            Mode::Decrypt => AppView {
                mode,
                decrypt: DecryptView { prompt: fresh_prompt(), ..self.decrypt },
                ..self
            },
            Mode::Encrypt => AppView {
                mode,
                encrypt: EncryptView { prompt: fresh_prompt(), ..self.encrypt },
                ..self
            },
            _ => AppView { mode, ..self },
        }
    }

    /// The row of the menu to select when a page is left for the menu: the
    /// row of that page.
    pub open spec fn menu_row(self, mode: Mode) -> Option<usize> {
        match (self.mode, mode) {
            (Mode::Decrypt, Mode::MainMenu) => Some(0usize),
            (Mode::Encrypt, Mode::MainMenu) => Some(1usize),
            _ => None,
        }
    }
}

impl AppView {
    /// The program after a key, when the row `menu_selected` of the menu is
    /// selected. In the menu, Enter opens the selected row and Escape ends
    /// the program; on a page, Escape leads back to the menu and every other
    /// key goes to the page.
    pub open spec fn after_key(self, key: Key, menu_selected: Option<usize>) -> AppView {
        match self.mode {
            Mode::MainMenu => match menu_action(key, menu_selected) {
                MenuAction::ChangeMode(mode) => self.after_change_mode(mode),
                _ => self,
            },
            Mode::Decrypt => if key == Key::Esc {
                self.after_change_mode(Mode::MainMenu)
            } else {
                AppView { decrypt: self.decrypt.after_key(key), ..self }
            },
            Mode::Encrypt => if key == Key::Esc {
                self.after_change_mode(Mode::MainMenu)
            } else {
                AppView { encrypt: self.encrypt.after_key(key), ..self }
            },
            Mode::Quit => self,
        }
    }

    /// What the key asks of the list of the menu: to move its selection, or,
    /// on the way back from a page, to select the row of that page.
    pub open spec fn list_action(self, key: Key, menu_selected: Option<usize>) -> ListAction {
        match self.mode {
            Mode::MainMenu => match menu_action(key, menu_selected) {
                MenuAction::SelectPrevious => ListAction::SelectPrevious,
                MenuAction::SelectNext => ListAction::SelectNext,
                MenuAction::SelectFirst => ListAction::SelectFirst,
                _ => ListAction::Ignore,
            },
            Mode::Decrypt => if key == Key::Esc {
                ListAction::Select(0)
            } else {
                ListAction::Ignore
            },
            Mode::Encrypt => if key == Key::Esc {
                ListAction::Select(1)
            } else {
                ListAction::Ignore
            },
            Mode::Quit => ListAction::Ignore,
        }
    }
}

impl Default for App {
    /// The program as it starts: in the menu, with empty pages.
    fn default() -> (app: Self)
        ensures
            app@ == (AppView {
                mode: Mode::MainMenu,
                decrypt: DecryptView {
                    history: Seq::empty(),
                    table_state: RowSelection::Nothing,
                    selected: None,
                    prompt: PromptView { input: Seq::empty(), cursor_index: 0, has_focus: false },
                },
                encrypt: EncryptView {
                    results: None,
                    page_start: 0,
                    page_len: 0,
                    prompt: PromptView { input: Seq::empty(), cursor_index: 0, has_focus: false },
                },
            }),
    {
        App { mode: Mode::MainMenu, decrypt: Decrypt::default(), encrypt: Encrypt::default() }
    }
}

impl App {
    /// The page that is shown.
    pub fn mode(&self) -> (mode: Mode)
        ensures
            mode == self@.mode,
    {
        self.mode
    }

    /// The state of the page that decrypts.
    pub fn decrypt(&self) -> (page: &Decrypt)
        ensures
            page@ == self@.decrypt,
    {
        &self.decrypt
    }

    /// The state of the page that encrypts.
    pub fn encrypt(&self) -> (page: &Encrypt)
        ensures
            page@ == self@.encrypt,
    {
        &self.encrypt
    }

    /// Does what a key asks, and returns what is left to do on the list of
    /// the menu, of which `menu_selected` is the selected row.
    pub fn handle_events(&mut self, key: Key, menu_selected: Option<usize>) -> (action: ListAction)
        requires
            old(self)@.mode == Mode::MainMenu && key == Key::Enter ==> (menu_selected matches Some(
                index,
            ) ==> index < MENU_ROWS),
        ensures
            final(self)@ == old(self)@.after_key(key, menu_selected),
            action == old(self)@.list_action(key, menu_selected),
    {
        match self.mode {
            Mode::MainMenu => {
                match mainmenu::handle_events(key, menu_selected) {
                    MenuAction::ChangeMode(mode) => {
                        self.change_mode(mode);
                        ListAction::Ignore
                    },
                    MenuAction::SelectPrevious => ListAction::SelectPrevious,
                    MenuAction::SelectNext => ListAction::SelectNext,
                    MenuAction::SelectFirst => ListAction::SelectFirst,
                    MenuAction::Ignore => ListAction::Ignore,
                }
            },
            Mode::Decrypt => {
                if self.decrypt.handle_events(key) {
                    self.back_to_menu()
                } else {
                    ListAction::Ignore
                }
            },
            Mode::Encrypt => {
                if self.encrypt.handle_events(key) {
                    self.back_to_menu()
                } else {
                    ListAction::Ignore
                }
            },
            Mode::Quit => ListAction::Ignore,
        }
    }

    /// Leaves a page for the menu, and asks the menu for the row of that page.
    fn back_to_menu(&mut self) -> (action: ListAction)
        requires
            old(self)@.mode == Mode::Decrypt || old(self)@.mode == Mode::Encrypt,
        ensures
            final(self)@ == old(self)@.after_change_mode(Mode::MainMenu),
            action == old(self)@.list_action(Key::Esc, None),
    {
        match self.change_mode(Mode::MainMenu) {
            Some(row) => ListAction::Select(row),
            None => ListAction::Ignore,
        }
    }

    /// Fits the table of the page that encrypts into an area of the
    /// terminal, and says how it is laid out.
    pub fn layout(&mut self, width: u16, height: u16) -> (layout: PageLayout)
        ensures
            final(self)@ == (AppView {
                encrypt: old(self)@.encrypt.laid_out(width, height),
                ..old(self)@
            }),
            layout == old(self)@.encrypt.layout(width, height),
    {
        self.encrypt.layout(width, height)
    }

    /// Leaves the page that is shown for another mode. Returns the row that
    /// the menu has to select, when it is the menu that opens.
    pub fn change_mode(&mut self, mode: Mode) -> (menu_row: Option<usize>)
        requires
            is_transition(old(self)@.mode, mode),
        ensures
            final(self)@ == old(self)@.after_change_mode(mode),
            menu_row == old(self)@.menu_row(mode),
    {
        let from = self.mode;
        self.mode = mode;
        match (from, mode) {
            (Mode::MainMenu, Mode::Decrypt) => {
                self.decrypt.init();
                None
            },
            (Mode::MainMenu, Mode::Encrypt) => {
                self.encrypt.init();
                None
            },
            (Mode::Decrypt, Mode::MainMenu) => Some(0),
            (Mode::Encrypt, Mode::MainMenu) => Some(1),
            _ => None,
        }
    }
}

} // verus!
