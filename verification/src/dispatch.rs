//! The boundary between window messages and commands: which command a
//! message stands for, and which message carries a command from the keyboard
//! interpreter to the control loop.
use crate::config::{SWITCH_APPS_HOTKEY_ID, SWITCH_WINDOWS_HOTKEY_ID};
use crate::keyboard::Command;
use vstd::prelude::*;

verus! {

pub const WM_USER_TRAYICON: u32 = 6000;

pub const WM_USER_REGISTER_TRAYICON: u32 = 6001;

pub const WM_USER_SWITCH_APPS: u32 = 6010;

pub const WM_USER_SWITCH_APPS_DONE: u32 = 6011;

pub const WM_USER_SWITCH_APPS_CANCEL: u32 = 6012;

pub const WM_USER_SWITCH_WINDOWS: u32 = 6020;

pub const WM_USER_SWITCH_WINDOWS_DONE: u32 = 6021;

pub const IDM_EXIT: usize = 1;

pub const IDM_STARTUP: usize = 2;

pub const IDM_CONFIGURE: usize = 3;

pub const WM_ERASEBKGND: u32 = 0x0014;

pub const WM_NCHITTEST: u32 = 0x0084;

pub const WM_COMMAND: u32 = 0x0111;

pub const WM_LBUTTONUP: u32 = 0x0202;

pub const WM_RBUTTONUP: u32 = 0x0205;

/// The answer to a hit test that says: inside the window.
pub const HTCLIENT: isize = 1;

/// What a window message asks of the application.
#[derive(Clone, Copy, Debug, PartialEq, Eq, Structural)]
pub enum AppEvent {
    /// A mouse button went up on the tray icon: show its menu.
    TrayMenu,
    /// Another message of the tray icon: nothing to do.
    TrayOther,
    /// The tray icon has to be registered, first or again.
    RegisterTrayIcon,
    /// A command of the keyboard interpreter.
    Gesture(Command),
    /// The system asks which part of the window the cursor is on.
    HitTest,
    /// The left mouse button went up on the picker.
    Click,
    /// The menu entry that ends the program.
    MenuExit,
    /// The menu entry that toggles start with the system.
    MenuStartup,
    /// The menu entry that opens the configuration.
    MenuConfigure,
    /// The system asks for the background to be erased.
    EraseBackground,
    /// Anything else.
    Other,
}

/// The event that a message stands for. `taskbar_created` is the message
/// that the shell sends when the taskbar was created again. A message of the
/// tray icon carries the mouse message in the low 32 bits of its last
/// parameter, which is what the cast to `u32` keeps.
pub open spec fn spec_decode_message(msg: u32, wparam: usize, lparam: isize, taskbar_created: u32) -> AppEvent {
    if msg == WM_USER_TRAYICON {
        if lparam as u32 == WM_LBUTTONUP || lparam as u32 == WM_RBUTTONUP {
            AppEvent::TrayMenu
        } else {
            AppEvent::TrayOther
        }
    } else if msg == WM_USER_SWITCH_APPS {
        AppEvent::Gesture(
            Command::GestureStep { binding_id: SWITCH_APPS_HOTKEY_ID, reverse: lparam == 1 },
        )
    } else if msg == WM_USER_SWITCH_APPS_DONE {
        AppEvent::Gesture(Command::GestureFinished { binding_id: SWITCH_APPS_HOTKEY_ID })
    } else if msg == WM_USER_SWITCH_APPS_CANCEL {
        AppEvent::Gesture(Command::GestureCancel)
    } else if msg == WM_USER_SWITCH_WINDOWS {
        AppEvent::Gesture(
            Command::GestureStep { binding_id: SWITCH_WINDOWS_HOTKEY_ID, reverse: lparam == 1 },
        )
    } else if msg == WM_USER_SWITCH_WINDOWS_DONE {
        AppEvent::Gesture(Command::GestureFinished { binding_id: SWITCH_WINDOWS_HOTKEY_ID })
    } else if msg == WM_NCHITTEST {
        AppEvent::HitTest
    } else if msg == WM_LBUTTONUP {
        AppEvent::Click
    } else if msg == WM_COMMAND {
        if (wparam >> 16) & 0xffff != 0 {
            AppEvent::Other
        } else if wparam & 0xffff == IDM_EXIT {
            AppEvent::MenuExit
        } else if wparam & 0xffff == IDM_STARTUP {
            AppEvent::MenuStartup
        } else if wparam & 0xffff == IDM_CONFIGURE {
            AppEvent::MenuConfigure
        } else {
            AppEvent::Other
        }
    } else if msg == WM_ERASEBKGND {
        AppEvent::EraseBackground
    } else if msg == WM_USER_REGISTER_TRAYICON || msg == taskbar_created {
        AppEvent::RegisterTrayIcon
    } else {
        AppEvent::Other
    }
}

pub fn decode_message(msg: u32, wparam: usize, lparam: isize, taskbar_created: u32) -> (r: AppEvent)
    ensures
        r == spec_decode_message(msg, wparam, lparam, taskbar_created),
{
    if msg == WM_USER_TRAYICON {
        let keycode: u32 = #[verifier::truncate]
        (lparam as u32);
        if keycode == WM_LBUTTONUP || keycode == WM_RBUTTONUP {
            AppEvent::TrayMenu
        } else {
            AppEvent::TrayOther
        }
    } else if msg == WM_USER_SWITCH_APPS {
        AppEvent::Gesture(
            Command::GestureStep { binding_id: SWITCH_APPS_HOTKEY_ID, reverse: lparam == 1 },
        )
    } else if msg == WM_USER_SWITCH_APPS_DONE {
        AppEvent::Gesture(Command::GestureFinished { binding_id: SWITCH_APPS_HOTKEY_ID })
    } else if msg == WM_USER_SWITCH_APPS_CANCEL {
        AppEvent::Gesture(Command::GestureCancel)
    } else if msg == WM_USER_SWITCH_WINDOWS {
        AppEvent::Gesture(
            Command::GestureStep { binding_id: SWITCH_WINDOWS_HOTKEY_ID, reverse: lparam == 1 },
        )
    } else if msg == WM_USER_SWITCH_WINDOWS_DONE {
        AppEvent::Gesture(Command::GestureFinished { binding_id: SWITCH_WINDOWS_HOTKEY_ID })
    } else if msg == WM_NCHITTEST {
        AppEvent::HitTest
    } else if msg == WM_LBUTTONUP {
        AppEvent::Click
    } else if msg == WM_COMMAND {
        if (wparam >> 16) & 0xffff != 0 {
            AppEvent::Other
        } else if wparam & 0xffff == IDM_EXIT {
            AppEvent::MenuExit
        } else if wparam & 0xffff == IDM_STARTUP {
            AppEvent::MenuStartup
        } else if wparam & 0xffff == IDM_CONFIGURE {
            AppEvent::MenuConfigure
        } else {
            AppEvent::Other
        }
    } else if msg == WM_ERASEBKGND {
        AppEvent::EraseBackground
    } else if msg == WM_USER_REGISTER_TRAYICON || msg == taskbar_created {
        AppEvent::RegisterTrayIcon
    } else {
        AppEvent::Other
    }
}

/// The result that the window procedure returns for an event by itself; for
/// any other event the system's default procedure decides.
pub fn message_result(event: AppEvent) -> (r: Option<isize>)
    ensures
        r == match event {
            AppEvent::TrayMenu => Some(0isize),
            AppEvent::TrayOther => Some(0isize),
            AppEvent::HitTest => Some(HTCLIENT),
            AppEvent::EraseBackground => Some(0isize),
            _ => None,
        },
{
    match event {
        AppEvent::TrayMenu => Some(0),
        AppEvent::TrayOther => Some(0),
        AppEvent::HitTest => Some(HTCLIENT),
        AppEvent::EraseBackground => Some(0),
        _ => None,
    }
}

/// The message, with its last parameter, that carries a command to the
/// control loop. Commands of other bindings than the two known ones, and the
/// focus notice, have none.
pub open spec fn spec_command_message(command: Command) -> Option<(u32, isize)> {
    match command {
        Command::GestureStep { binding_id, reverse } => if binding_id == SWITCH_APPS_HOTKEY_ID {
            Some((WM_USER_SWITCH_APPS, if reverse { 1isize } else { 0isize }))
        } else if binding_id == SWITCH_WINDOWS_HOTKEY_ID {
            Some((WM_USER_SWITCH_WINDOWS, if reverse { 1isize } else { 0isize }))
        } else {
            None
        },
        Command::GestureFinished { binding_id } => if binding_id == SWITCH_APPS_HOTKEY_ID {
            Some((WM_USER_SWITCH_APPS_DONE, 0isize))
        } else if binding_id == SWITCH_WINDOWS_HOTKEY_ID {
            Some((WM_USER_SWITCH_WINDOWS_DONE, 0isize))
        } else {
            None
        },
        Command::GestureCancel => Some((WM_USER_SWITCH_APPS_CANCEL, 0isize)),
        Command::FocusChanged => None,
    }
}

pub fn command_message(command: Command) -> (r: Option<(u32, isize)>)
    ensures
        r == spec_command_message(command),
{
    match command {
        Command::GestureStep { binding_id, reverse } => {
            let direction: isize = if reverse {
                1
            } else {
                0
            };
            if binding_id == SWITCH_APPS_HOTKEY_ID {
                Some((WM_USER_SWITCH_APPS, direction))
            } else if binding_id == SWITCH_WINDOWS_HOTKEY_ID {
                Some((WM_USER_SWITCH_WINDOWS, direction))
            } else {
                None
            }
        },
        Command::GestureFinished { binding_id } => {
            if binding_id == SWITCH_APPS_HOTKEY_ID {
                Some((WM_USER_SWITCH_APPS_DONE, 0))
            } else if binding_id == SWITCH_WINDOWS_HOTKEY_ID {
                Some((WM_USER_SWITCH_WINDOWS_DONE, 0))
            } else {
                None
            }
        },
        Command::GestureCancel => Some((WM_USER_SWITCH_APPS_CANCEL, 0)),
        Command::FocusChanged => None,
    }
}

/// A command that has a message comes back from that message as it went in.
pub proof fn law_command_round_trip(command: Command, wparam: usize, taskbar_created: u32)
    requires
        spec_command_message(command) is Some,
    ensures
        spec_decode_message(
            spec_command_message(command).unwrap().0,
            wparam,
            spec_command_message(command).unwrap().1,
            taskbar_created,
        ) == AppEvent::Gesture(command),
{
}

} // verus!
