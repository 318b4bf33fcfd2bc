//! The tray menu: which command an entry stands for, and what the engine
//! does on it.

use vstd::prelude::*;
use crate::engine::{Effect, TimerManager};
use crate::text::same_text;

verus! {

/// What an entry of the tray menu asks for.
#[derive(Clone, Copy, Debug, PartialEq, Eq, Structural)]
pub enum MenuCommand {
    Start,
    Pause,
    Stop,
    /// Plan a countdown of so many minutes.
    QuickStart { minutes: u32 },
    ShowWindow,
    OpenSettings,
    Quit,
}

/// The command behind the menu entry `id`, if it has one.
pub open spec fn menu_command(id: Seq<char>) -> Option<MenuCommand> {
    if id == "start"@ {
        Some(MenuCommand::Start)
    } else if id == "pause"@ {
        Some(MenuCommand::Pause)
    } else if id == "stop"@ {
        Some(MenuCommand::Stop)
    } else if id == "duration_5"@ {
        Some(MenuCommand::QuickStart { minutes: 5 })
    } else if id == "duration_15"@ {
        Some(MenuCommand::QuickStart { minutes: 15 })
    } else if id == "duration_25"@ {
        Some(MenuCommand::QuickStart { minutes: 25 })
    } else if id == "duration_45"@ {
        Some(MenuCommand::QuickStart { minutes: 45 })
    } else if id == "show"@ {
        Some(MenuCommand::ShowWindow)
    } else if id == "settings"@ {
        Some(MenuCommand::OpenSettings)
    } else if id == "quit"@ {
        Some(MenuCommand::Quit)
    } else {
        None
    }
}

/// The seconds a quick start of `minutes` minutes plans; more minutes than
/// a `u32` of seconds holds plan the longest countdown there is.
pub open spec fn quick_start_seconds(minutes: u32) -> u32 {
    if minutes * 60 <= u32::MAX {
        (minutes * 60) as u32
    } else {
        u32::MAX
    }
}

/// Reads the identifier of a menu entry.
pub fn parse_menu_command(id: &str) -> (command: Option<MenuCommand>)
    ensures
        command == menu_command(id@),
{
    if same_text(id, "start") {
        Some(MenuCommand::Start)
    } else if same_text(id, "pause") {
        Some(MenuCommand::Pause)
    } else if same_text(id, "stop") {
        Some(MenuCommand::Stop)
    } else if same_text(id, "duration_5") {
        Some(MenuCommand::QuickStart { minutes: 5 })
    } else if same_text(id, "duration_15") {
        Some(MenuCommand::QuickStart { minutes: 15 })
    } else if same_text(id, "duration_25") {
        Some(MenuCommand::QuickStart { minutes: 25 })
    } else if same_text(id, "duration_45") {
        Some(MenuCommand::QuickStart { minutes: 45 })
    } else if same_text(id, "show") {
        Some(MenuCommand::ShowWindow)
    } else if same_text(id, "settings") {
        Some(MenuCommand::OpenSettings)
    } else if same_text(id, "quit") {
        Some(MenuCommand::Quit)
    } else {
        None
    }
}

impl TimerManager {
    /// The engine after the menu command `command` at clock reading `now`,
    /// and what the caller owes. The commands that concern the window only
    /// leave the engine alone.
    pub open spec fn menu_spec(self, command: MenuCommand, now: u64) -> (TimerManager, Effect) {
        match command {
            MenuCommand::Start => self.start_spec(now),
            MenuCommand::Pause => self.pause_spec(),
            MenuCommand::Stop => self.stop_spec(),
            MenuCommand::QuickStart { minutes } => self.set_duration_spec(
                quick_start_seconds(minutes),
            ),
            _ => (self, Effect::nothing()),
        }
    }

    /// Carries out a menu command on the engine.
    pub fn handle_menu_command(&mut self, command: MenuCommand, now: u64) -> (effect: Effect)
        ensures
            (*final(self), effect) == old(self).menu_spec(command, now),
            old(self).wf() ==> final(self).wf(),
    {
        match command {
            MenuCommand::Start => self.start_timer(now),
            MenuCommand::Pause => self.pause_timer(),
            MenuCommand::Stop => self.stop_timer(),
            MenuCommand::QuickStart { minutes } => {
                let seconds: u32 = if minutes <= u32::MAX / 60 {
                    minutes * 60
                } else {
                    u32::MAX
                };
                self.set_duration(seconds)
            },
            _ => Effect { abort: None, spawn: None, resync: false },
        }
    }
}

} // verus!
