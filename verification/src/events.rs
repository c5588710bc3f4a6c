//! Keystroke handling: key events become state transitions and outside
//! requests.
use vstd::prelude::*;

use crate::tui::backspaced;
use crate::tui::copy_requested;
use crate::tui::delete_requested;
use crate::tui::logged_out;
use crate::tui::moved_next;
use crate::tui::moved_prev;
use crate::tui::pushed;
use crate::tui::submitted;
use crate::tui::sync_started;
use crate::tui::toggled;
use crate::tui::AddField;
use crate::tui::InputMode;
use crate::tui::NetRequest;
use crate::tui::Screen;
use crate::tui::TuiApp;

verus! {

/// A key the interaction loop reacts to.
#[derive(Debug, Clone, Copy, PartialEq, Eq, Structural)]
pub enum Key {
    Char(char),
    Enter,
    Esc,
    Tab,
    Backspace,
    Up,
    Down,
    Other,
}

/// A pressed key with its control modifier.
#[derive(Debug, Clone, Copy, PartialEq, Eq, Structural)]
pub struct KeyInput {
    pub code: Key,
    pub ctrl: bool,
}

/// Handle one pressed key.
///
/// The control combinations work from anywhere: quit, or jump to the login
/// or registration form. Otherwise command mode runs the single-letter
/// commands, navigation and submit, and editing mode feeds the key to the
/// active form.
pub fn handle_key(app: &mut TuiApp, key: KeyInput, now: u64) -> (r: Option<NetRequest>)
    ensures
        key.ctrl && key.code == Key::Char('c') ==> r is None && *final (app) == (TuiApp {
            should_quit: true,
            ..*old(app)
        }),
        key.ctrl && key.code == Key::Char('l') ==> r is None && *final (app) == (TuiApp {
            screen: Screen::Login,
            input_mode: InputMode::Editing,
            ..*old(app)
        }),
        key.ctrl && key.code == Key::Char('r') ==> r is None && *final (app) == (TuiApp {
            screen: Screen::Register,
            input_mode: InputMode::Editing,
            ..*old(app)
        }),
        !(key.ctrl && (key.code == Key::Char('c') || key.code == Key::Char('l') || key.code
            == Key::Char('r'))) ==> {
            if old(app).input_mode == InputMode::Editing {
                match key.code {
                    Key::Esc => r is None && *final (app) == (TuiApp {
                        input_mode: InputMode::Normal,
                        ..*old(app)
                    }),
                    Key::Tab => r is None && toggled(*old(app), *final (app)),
                    Key::Enter => submitted(*old(app), *final (app), r, now),
                    Key::Backspace => r is None && backspaced(*old(app), *final (app)),
                    Key::Char(c) => r is None && pushed(*old(app), *final (app), c),
                    _ => r is None && *final (app) == *old(app),
                }
            } else {
                match key.code {
                    Key::Char(c) => {
                        if c == 'l' && old(app).screen != Screen::MasterPassword {
                            logged_out(*old(app), *final (app), r, now)
                        } else if c == 's' && old(app).screen != Screen::MasterPassword {
                            sync_started(*old(app), *final (app), r, now)
                        } else if c == 'v' && old(app).screen != Screen::MasterPassword {
                            r is None && *final (app) == (TuiApp {
                                screen: Screen::Secrets,
                                ..*old(app)
                            })
                        } else if c == 'a' && old(app).screen != Screen::MasterPassword {
                            r is None && *final (app) == (TuiApp {
                                screen: Screen::AddSecret,
                                input_mode: InputMode::Editing,
                                add_field: AddField::Title,
                                title: final (app).title,
                                field1: final (app).field1,
                                field2: final (app).field2,
                                field3: final (app).field3,
                                field4: final (app).field4,
                                ..*old(app)
                            }) && final (app).title@.len() == 0 && final (app).field1@.len() == 0
                                && final (app).field2@.len() == 0 && final (app).field3@.len() == 0
                                && final (app).field4@.len() == 0
                        } else if c == 'c' && old(app).screen == Screen::Secrets {
                            copy_requested(*old(app), *final (app), r, now)
                        } else if c == 'd' && old(app).screen == Screen::Secrets {
                            delete_requested(*old(app), *final (app), r)
                        } else if c == 'e' {
                            r is None && *final (app) == (TuiApp {
                                input_mode: InputMode::Editing,
                                ..*old(app)
                            })
                        } else {
                            r is None && *final (app) == *old(app)
                        }
                    },
                    Key::Esc => r is None && *final (app) == (TuiApp {
                        input_mode: InputMode::Normal,
                        screen: (match old(app).screen {
                            Screen::Secrets | Screen::AddSecret => Screen::Menu,
                            other => other,
                        }),
                        ..*old(app)
                    }),
                    Key::Up => r is None && moved_prev(*old(app), *final (app)),
                    Key::Down => r is None && moved_next(*old(app), *final (app)),
                    Key::Enter => submitted(*old(app), *final (app), r, now),
                    _ => r is None && *final (app) == *old(app),
                }
            }
        },
{
    if key.ctrl {
        match key.code {
            Key::Char(c) => {
                if c == 'c' {
                    app.should_quit = true;
                    return None;
                }
                if c == 'l' {
                    app.screen = Screen::Login;
                    app.input_mode = InputMode::Editing;
                    return None;
                }
                if c == 'r' {
                    app.screen = Screen::Register;
                    app.input_mode = InputMode::Editing;
                    return None;
                }
            },
            _ => {},
        }
    }
    match app.input_mode {
        InputMode::Normal => handle_normal(app, key, now),
        InputMode::Editing => handle_editing(app, key, now),
    }
}

/// Run a command-mode key.
fn handle_normal(app: &mut TuiApp, key: KeyInput, now: u64) -> (r: Option<NetRequest>)
    requires
        old(app).input_mode == InputMode::Normal,
    ensures
        match key.code {
            Key::Char(c) => {
                if c == 'l' && old(app).screen != Screen::MasterPassword {
                    logged_out(*old(app), *final (app), r, now)
                } else if c == 's' && old(app).screen != Screen::MasterPassword {
                    sync_started(*old(app), *final (app), r, now)
                } else if c == 'v' && old(app).screen != Screen::MasterPassword {
                    r is None && *final (app) == (TuiApp { screen: Screen::Secrets, ..*old(app) })
                } else if c == 'a' && old(app).screen != Screen::MasterPassword {
                    r is None && *final (app) == (TuiApp {
                        screen: Screen::AddSecret,
                        input_mode: InputMode::Editing,
                        add_field: AddField::Title,
                        title: final (app).title,
                        field1: final (app).field1,
                        field2: final (app).field2,
                        field3: final (app).field3,
                        field4: final (app).field4,
                        ..*old(app)
                    }) && final (app).title@.len() == 0 && final (app).field1@.len() == 0 && final (
                    app).field2@.len() == 0 && final (app).field3@.len() == 0 && final (
                    app).field4@.len() == 0
                } else if c == 'c' && old(app).screen == Screen::Secrets {
                    copy_requested(*old(app), *final (app), r, now)
                } else if c == 'd' && old(app).screen == Screen::Secrets {
                    delete_requested(*old(app), *final (app), r)
                } else if c == 'e' {
                    r is None && *final (app) == (TuiApp {
                        input_mode: InputMode::Editing,
                        ..*old(app)
                    })
                } else {
                    r is None && *final (app) == *old(app)
                }
            },
            Key::Esc => r is None && *final (app) == (TuiApp {
                input_mode: InputMode::Normal,
                screen: (match old(app).screen {
                    Screen::Secrets | Screen::AddSecret => Screen::Menu,
                    other => other,
                }),
                ..*old(app)
            }),
            Key::Up => r is None && moved_prev(*old(app), *final (app)),
            Key::Down => r is None && moved_next(*old(app), *final (app)),
            Key::Enter => submitted(*old(app), *final (app), r, now),
            _ => r is None && *final (app) == *old(app),
        },
{
    match key.code {
        Key::Char(c) => {
            if c == 'l' && app.screen != Screen::MasterPassword {
                Some(app.logout(now))
            } else if c == 's' && app.screen != Screen::MasterPassword {
                app.sync_secrets(now)
            } else if c == 'v' && app.screen != Screen::MasterPassword {
                app.screen = Screen::Secrets;
                None
            } else if c == 'a' && app.screen != Screen::MasterPassword {
                app.enter_add_secret();
                None
            } else if c == 'c' && app.screen == Screen::Secrets {
                app.copy_selected(now)
            } else if c == 'd' && app.screen == Screen::Secrets {
                app.delete_selected()
            } else if c == 'e' {
                app.input_mode = InputMode::Editing;
                None
            } else {
                None
            }
        },
        Key::Esc => {
            app.input_mode = InputMode::Normal;
            app.screen = match app.screen {
                Screen::Secrets | Screen::AddSecret => Screen::Menu,
                other => other,
            };
            None
        },
        Key::Up => {
            app.prev();
            None
        },
        Key::Down => {
            app.next();
            None
        },
        Key::Enter => app.submit(now),
        _ => None,
    }
}

/// Run an editing-mode key.
fn handle_editing(app: &mut TuiApp, key: KeyInput, now: u64) -> (r: Option<NetRequest>)
    ensures
        match key.code {
            Key::Esc => r is None && *final (app) == (TuiApp {
                input_mode: InputMode::Normal,
                ..*old(app)
            }),
            Key::Tab => r is None && toggled(*old(app), *final (app)),
            Key::Enter => submitted(*old(app), *final (app), r, now),
            Key::Backspace => r is None && backspaced(*old(app), *final (app)),
            Key::Char(c) => r is None && pushed(*old(app), *final (app), c),
            _ => r is None && *final (app) == *old(app),
        },
{
    match key.code {
        Key::Esc => {
            app.input_mode = InputMode::Normal;
            None
        },
        Key::Tab => {
            app.toggle_field();
            None
        },
        Key::Enter => app.submit(now),
        Key::Backspace => {
            app.backspace();
            None
        },
        Key::Char(c) => {
            app.push_char(c);
            None
        },
        _ => None,
    }
}

} // verus!
