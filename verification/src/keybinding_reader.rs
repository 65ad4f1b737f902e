//! Keyboard shortcuts of the desktop, turned into the bindings that the overlay lists.
//!
//! Each shortcut of the desktop's settings pairs a key combination with an
//! action.  Shortcuts that disable a binding are dropped, the others get a
//! description (their own, or one derived from the action), bindings that share
//! a description are shown as one entry with up to two key combinations,
//! multimedia keys (`XF86…` keysyms) are left out, and the entries are sorted
//! by description.

use crate::text::{
    lemma_lex_irreflexive, lemma_lex_total, lemma_lex_transitive, lex_less_chars,
    append_chars, append_decimal, append_range, append_str, chars_eq, chars_of, decimal,
    lex_less, starts_with_at, string_from_chars, strip_prefix_or_keep,
};
use vstd::prelude::*;

verus! {

/// A direction on screen.
#[derive(Debug, Clone, Copy, PartialEq, Eq, Structural)]
pub enum Direction {
    Left,
    Right,
    Up,
    Down,
}

/// A direction in which focus moves.
#[derive(Debug, Clone, Copy, PartialEq, Eq, Structural)]
pub enum FocusDirection {
    Left,
    Right,
    Up,
    Down,
    In,
    Out,
}

/// A tiling orientation.
#[derive(Debug, Clone, Copy, PartialEq, Eq, Structural)]
pub enum Orientation {
    Horizontal,
    Vertical,
}

/// A direction in which a window is resized.
#[derive(Debug, Clone, Copy, PartialEq, Eq, Structural)]
pub enum ResizeDirection {
    Inwards,
    Outwards,
}

/// An action of the desktop system rather than of the window manager.
#[derive(Debug, Clone, Copy, PartialEq, Eq, Structural)]
pub enum SystemAction {
    AppLibrary,
    BrightnessDown,
    BrightnessUp,
    InputSourceSwitch,
    HomeFolder,
    KeyboardBrightnessDown,
    KeyboardBrightnessUp,
    Launcher,
    LogOut,
    LockScreen,
    Mute,
    MuteMic,
    PlayPause,
    PlayNext,
    PlayPrev,
    PowerOff,
    Screenshot,
    Suspend,
    ScreenReader,
    Terminal,
    TouchpadToggle,
    VolumeLower,
    VolumeRaise,
    WebBrowser,
    WindowSwitcher,
    WindowSwitcherPrevious,
    WorkspaceOverview,
    DisplayToggle,
}

/// What a keyboard shortcut of the desktop does.
#[derive(Debug, Clone, PartialEq, Eq)]
pub enum Action {
    Close,
    Debug,
    Disable,
    Focus(FocusDirection),
    Fullscreen,
    LastWorkspace,
    Maximize,
    MigrateWorkspaceToNextOutput,
    MigrateWorkspaceToOutput(Direction),
    MigrateWorkspaceToPreviousOutput,
    Minimize,
    Move(Direction),
    MoveToLastWorkspace,
    MoveToNextOutput,
    MoveToNextWorkspace,
    MoveToOutput(Direction),
    MoveToPreviousOutput,
    MoveToPreviousWorkspace,
    MoveToWorkspace(u8),
    NextOutput,
    NextWorkspace,
    Orientation(Orientation),
    PreviousOutput,
    PreviousWorkspace,
    Resizing(ResizeDirection),
    SendToLastWorkspace,
    SendToNextOutput,
    SendToNextWorkspace,
    SendToOutput(Direction),
    SendToPreviousOutput,
    SendToPreviousWorkspace,
    SendToWorkspace(u8),
    Spawn(String),
    SwapWindow,
    SwitchOutput(Direction),
    System(SystemAction),
    Terminate,
    ToggleOrientation,
    ToggleStacking,
    ToggleSticky,
    ToggleTiling,
    ToggleWindowFloating,
    Workspace(u8),
    ZoomIn,
    ZoomOut,
}

/// The name of a `Direction` value, as its `Debug` form writes it.
pub open spec fn direction_name(v: Direction) -> Seq<char> {
    match v {
        Direction::Left => "Left"@,
        Direction::Right => "Right"@,
        Direction::Up => "Up"@,
        Direction::Down => "Down"@,
    }
}

/// The name of a `FocusDirection` value, as its `Debug` form writes it.
pub open spec fn focus_direction_name(v: FocusDirection) -> Seq<char> {
    match v {
        FocusDirection::Left => "Left"@,
        FocusDirection::Right => "Right"@,
        FocusDirection::Up => "Up"@,
        FocusDirection::Down => "Down"@,
        FocusDirection::In => "In"@,
        FocusDirection::Out => "Out"@,
    }
}

/// The name of a `Orientation` value, as its `Debug` form writes it.
pub open spec fn orientation_name(v: Orientation) -> Seq<char> {
    match v {
        Orientation::Horizontal => "Horizontal"@,
        Orientation::Vertical => "Vertical"@,
    }
}

/// The name of a `ResizeDirection` value, as its `Debug` form writes it.
pub open spec fn resize_direction_name(v: ResizeDirection) -> Seq<char> {
    match v {
        ResizeDirection::Inwards => "Inwards"@,
        ResizeDirection::Outwards => "Outwards"@,
    }
}

/// The name of a `SystemAction` value, as its `Debug` form writes it.
pub open spec fn system_action_name(v: SystemAction) -> Seq<char> {
    match v {
        SystemAction::AppLibrary => "AppLibrary"@,
        SystemAction::BrightnessDown => "BrightnessDown"@,
        SystemAction::BrightnessUp => "BrightnessUp"@,
        SystemAction::InputSourceSwitch => "InputSourceSwitch"@,
        SystemAction::HomeFolder => "HomeFolder"@,
        SystemAction::KeyboardBrightnessDown => "KeyboardBrightnessDown"@,
        SystemAction::KeyboardBrightnessUp => "KeyboardBrightnessUp"@,
        SystemAction::Launcher => "Launcher"@,
        SystemAction::LogOut => "LogOut"@,
        SystemAction::LockScreen => "LockScreen"@,
        SystemAction::Mute => "Mute"@,
        SystemAction::MuteMic => "MuteMic"@,
        SystemAction::PlayPause => "PlayPause"@,
        SystemAction::PlayNext => "PlayNext"@,
        SystemAction::PlayPrev => "PlayPrev"@,
        SystemAction::PowerOff => "PowerOff"@,
        SystemAction::Screenshot => "Screenshot"@,
        SystemAction::Suspend => "Suspend"@,
        SystemAction::ScreenReader => "ScreenReader"@,
        SystemAction::Terminal => "Terminal"@,
        SystemAction::TouchpadToggle => "TouchpadToggle"@,
        SystemAction::VolumeLower => "VolumeLower"@,
        SystemAction::VolumeRaise => "VolumeRaise"@,
        SystemAction::WebBrowser => "WebBrowser"@,
        SystemAction::WindowSwitcher => "WindowSwitcher"@,
        SystemAction::WindowSwitcherPrevious => "WindowSwitcherPrevious"@,
        SystemAction::WorkspaceOverview => "WorkspaceOverview"@,
        SystemAction::DisplayToggle => "DisplayToggle"@,
    }
}

/// The human-readable description of an action, as the desktop settings show it.
pub open spec fn action_label(a: Action) -> Seq<char> {
    match a {
        Action::Close => "Close window"@,
        Action::Debug => "Debug"@,
        Action::Disable => "Disable"@,
        Action::Focus(d) => match d {
            FocusDirection::Down => "Focus down"@,
            FocusDirection::In => "Focus in"@,
            FocusDirection::Left => "Focus left"@,
            FocusDirection::Out => "Focus out"@,
            FocusDirection::Right => "Focus right"@,
            FocusDirection::Up => "Focus up"@,
        },
        Action::Fullscreen => "Fullscreen window"@,
        Action::LastWorkspace => "Last workspace"@,
        Action::Maximize => "Maximize window"@,
        Action::MigrateWorkspaceToNextOutput => "Migrate workspace to next output"@,
        Action::MigrateWorkspaceToOutput(d) => match d {
            Direction::Left => "Migrate workspace left"@,
            Direction::Right => "Migrate workspace right"@,
            Direction::Up => "Migrate workspace up"@,
            Direction::Down => "Migrate workspace down"@,
        },
        Action::MigrateWorkspaceToPreviousOutput => "Migrate workspace to previous output"@,
        Action::Minimize => "Minimize window"@,
        Action::Move(d) => match d {
            Direction::Down => "Move window down"@,
            Direction::Right => "Move window right"@,
            Direction::Left => "Move window left"@,
            Direction::Up => "Move window up"@,
        },
        Action::MoveToLastWorkspace => "Move window to last workspace"@,
        Action::MoveToNextOutput => "Move window to next display"@,
        Action::MoveToNextWorkspace => "Move window to next workspace"@,
        Action::MoveToOutput(d) => match d {
            Direction::Left => "Move window one monitor left"@,
            Direction::Right => "Move window one monitor right"@,
            Direction::Up => "Move window one monitor up"@,
            Direction::Down => "Move window one monitor down"@,
        },
        Action::MoveToPreviousOutput => "Move window to prev display"@,
        Action::MoveToPreviousWorkspace => "Move window to prev wrkspace"@,
        Action::MoveToWorkspace(i) => "Move window to workspace "@ + decimal(i as nat),
        Action::NextOutput => "Focus next output"@,
        Action::NextWorkspace => "Focus next workspace"@,
        Action::Orientation(d) => match d {
            Orientation::Horizontal => "Set horizontal orientation"@,
            Orientation::Vertical => "Set vertical orientation"@,
        },
        Action::PreviousOutput => "Focus previous output"@,
        Action::PreviousWorkspace => "Focus previous workspace"@,
        Action::Resizing(d) => match d {
            ResizeDirection::Inwards => "Resize window inwards"@,
            ResizeDirection::Outwards => "Resize window outwards"@,
        },
        Action::SendToLastWorkspace => "Move window to last workspace"@,
        Action::SendToNextOutput => "Move window to next display"@,
        Action::SendToNextWorkspace => "Move window to next workspace"@,
        Action::SendToOutput(d) => match d {
            Direction::Left => "Move window one monitor left"@,
            Direction::Right => "Move window one monitor right"@,
            Direction::Up => "Move window one monitor up"@,
            Direction::Down => "Move window one monitor down"@,
        },
        Action::SendToPreviousOutput => "Move window to prev display"@,
        Action::SendToPreviousWorkspace => "Move window to prev wrkspace"@,
        Action::SendToWorkspace(i) => "Move window to workspace "@ + decimal(i as nat),
        Action::Spawn(task) => task@,
        Action::SwapWindow => "Swap window"@,
        Action::SwitchOutput(d) => match d {
            Direction::Left => "Switch to output left"@,
            Direction::Right => "Switch to output right"@,
            Direction::Up => "Switch to output up"@,
            Direction::Down => "Switch to output down"@,
        },
        Action::System(sys) => match sys {
            SystemAction::AppLibrary => "Open the app library"@,
            SystemAction::BrightnessDown => "Decrease display brightness"@,
            SystemAction::BrightnessUp => "Increase display brightness"@,
            SystemAction::InputSourceSwitch => "Switch input source"@,
            SystemAction::HomeFolder => "Open home folder"@,
            SystemAction::KeyboardBrightnessDown => "Decrease keyboard brightness"@,
            SystemAction::KeyboardBrightnessUp => "Increase keyboard brightness"@,
            SystemAction::Launcher => "Open the Launcher"@,
            SystemAction::LogOut => "Log Out"@,
            SystemAction::LockScreen => "Lock the screen"@,
            SystemAction::Mute => "Mute audio output"@,
            SystemAction::MuteMic => "Mutes microphone input"@,
            SystemAction::PlayPause => "Play/pause"@,
            SystemAction::PlayNext => "Next track"@,
            SystemAction::PlayPrev => "Previous track"@,
            SystemAction::PowerOff => "Power off"@,
            SystemAction::Screenshot => "Take a screenshot"@,
            SystemAction::Suspend => "Suspend"@,
            SystemAction::ScreenReader => "Toggle screen reader"@,
            SystemAction::Terminal => "Open a terminal"@,
            SystemAction::TouchpadToggle => "Toggle touchpad"@,
            SystemAction::VolumeLower => "Decrease audio output volume"@,
            SystemAction::VolumeRaise => "Increase audio output volume"@,
            SystemAction::WebBrowser => "Open a web browser"@,
            SystemAction::WindowSwitcher => "Switch between open windows"@,
            SystemAction::WindowSwitcherPrevious => "Switch between open windows reversed"@,
            SystemAction::WorkspaceOverview => "Open the workspace overview"@,
            SystemAction::DisplayToggle => "Toggle internal display"@,
        },
        Action::Terminate => "Terminate"@,
        Action::ToggleOrientation => "Toggle orientation"@,
        Action::ToggleStacking => "Toggle window stacking"@,
        Action::ToggleSticky => "Toggle sticky window"@,
        Action::ToggleTiling => "Toggle window tiling"@,
        Action::ToggleWindowFloating => "Toggle window floating"@,
        Action::Workspace(i) => "Workspace "@ + decimal(i as nat),
        Action::ZoomIn => "Zoom in"@,
        Action::ZoomOut => "Zoom out"@,
    }
}

/// The command text of an action: the command line for `Spawn`, the `Debug`
/// form of the system action for `System`, and the `Debug` form of the action
/// otherwise.
pub open spec fn action_command(a: Action) -> Seq<char> {
    match a {
        Action::Close => "Close"@,
        Action::Debug => "Debug"@,
        Action::Disable => "Disable"@,
        Action::Focus(d) => "Focus("@ + focus_direction_name(d) + ")"@,
        Action::Fullscreen => "Fullscreen"@,
        Action::LastWorkspace => "LastWorkspace"@,
        Action::Maximize => "Maximize"@,
        Action::MigrateWorkspaceToNextOutput => "MigrateWorkspaceToNextOutput"@,
        Action::MigrateWorkspaceToOutput(d) => "MigrateWorkspaceToOutput("@ + direction_name(d) + ")"@,
        Action::MigrateWorkspaceToPreviousOutput => "MigrateWorkspaceToPreviousOutput"@,
        Action::Minimize => "Minimize"@,
        Action::Move(d) => "Move("@ + direction_name(d) + ")"@,
        Action::MoveToLastWorkspace => "MoveToLastWorkspace"@,
        Action::MoveToNextOutput => "MoveToNextOutput"@,
        Action::MoveToNextWorkspace => "MoveToNextWorkspace"@,
        Action::MoveToOutput(d) => "MoveToOutput("@ + direction_name(d) + ")"@,
        Action::MoveToPreviousOutput => "MoveToPreviousOutput"@,
        Action::MoveToPreviousWorkspace => "MoveToPreviousWorkspace"@,
        Action::MoveToWorkspace(i) => "MoveToWorkspace("@ + decimal(i as nat) + ")"@,
        Action::NextOutput => "NextOutput"@,
        Action::NextWorkspace => "NextWorkspace"@,
        Action::Orientation(d) => "Orientation("@ + orientation_name(d) + ")"@,
        Action::PreviousOutput => "PreviousOutput"@,
        Action::PreviousWorkspace => "PreviousWorkspace"@,
        Action::Resizing(d) => "Resizing("@ + resize_direction_name(d) + ")"@,
        Action::SendToLastWorkspace => "SendToLastWorkspace"@,
        Action::SendToNextOutput => "SendToNextOutput"@,
        Action::SendToNextWorkspace => "SendToNextWorkspace"@,
        Action::SendToOutput(d) => "SendToOutput("@ + direction_name(d) + ")"@,
        Action::SendToPreviousOutput => "SendToPreviousOutput"@,
        Action::SendToPreviousWorkspace => "SendToPreviousWorkspace"@,
        Action::SendToWorkspace(i) => "SendToWorkspace("@ + decimal(i as nat) + ")"@,
        Action::Spawn(task) => task@,
        Action::SwapWindow => "SwapWindow"@,
        Action::SwitchOutput(d) => "SwitchOutput("@ + direction_name(d) + ")"@,
        Action::System(sys) => system_action_name(sys),
        Action::Terminate => "Terminate"@,
        Action::ToggleOrientation => "ToggleOrientation"@,
        Action::ToggleStacking => "ToggleStacking"@,
        Action::ToggleSticky => "ToggleSticky"@,
        Action::ToggleTiling => "ToggleTiling"@,
        Action::ToggleWindowFloating => "ToggleWindowFloating"@,
        Action::Workspace(i) => "Workspace("@ + decimal(i as nat) + ")"@,
        Action::ZoomIn => "ZoomIn"@,
        Action::ZoomOut => "ZoomOut"@,
    }
}

fn direction_text(v: Direction) -> (r: &'static str)
    ensures
        r@ == direction_name(v),
{
    match v {
        Direction::Left => "Left",
        Direction::Right => "Right",
        Direction::Up => "Up",
        Direction::Down => "Down",
    }
}

fn focus_direction_text(v: FocusDirection) -> (r: &'static str)
    ensures
        r@ == focus_direction_name(v),
{
    match v {
        FocusDirection::Left => "Left",
        FocusDirection::Right => "Right",
        FocusDirection::Up => "Up",
        FocusDirection::Down => "Down",
        FocusDirection::In => "In",
        FocusDirection::Out => "Out",
    }
}

fn orientation_text(v: Orientation) -> (r: &'static str)
    ensures
        r@ == orientation_name(v),
{
    match v {
        Orientation::Horizontal => "Horizontal",
        Orientation::Vertical => "Vertical",
    }
}

fn resize_direction_text(v: ResizeDirection) -> (r: &'static str)
    ensures
        r@ == resize_direction_name(v),
{
    match v {
        ResizeDirection::Inwards => "Inwards",
        ResizeDirection::Outwards => "Outwards",
    }
}

fn system_action_text(v: SystemAction) -> (r: &'static str)
    ensures
        r@ == system_action_name(v),
{
    match v {
        SystemAction::AppLibrary => "AppLibrary",
        SystemAction::BrightnessDown => "BrightnessDown",
        SystemAction::BrightnessUp => "BrightnessUp",
        SystemAction::InputSourceSwitch => "InputSourceSwitch",
        SystemAction::HomeFolder => "HomeFolder",
        SystemAction::KeyboardBrightnessDown => "KeyboardBrightnessDown",
        SystemAction::KeyboardBrightnessUp => "KeyboardBrightnessUp",
        SystemAction::Launcher => "Launcher",
        SystemAction::LogOut => "LogOut",
        SystemAction::LockScreen => "LockScreen",
        SystemAction::Mute => "Mute",
        SystemAction::MuteMic => "MuteMic",
        SystemAction::PlayPause => "PlayPause",
        SystemAction::PlayNext => "PlayNext",
        SystemAction::PlayPrev => "PlayPrev",
        SystemAction::PowerOff => "PowerOff",
        SystemAction::Screenshot => "Screenshot",
        SystemAction::Suspend => "Suspend",
        SystemAction::ScreenReader => "ScreenReader",
        SystemAction::Terminal => "Terminal",
        SystemAction::TouchpadToggle => "TouchpadToggle",
        SystemAction::VolumeLower => "VolumeLower",
        SystemAction::VolumeRaise => "VolumeRaise",
        SystemAction::WebBrowser => "WebBrowser",
        SystemAction::WindowSwitcher => "WindowSwitcher",
        SystemAction::WindowSwitcherPrevious => "WindowSwitcherPrevious",
        SystemAction::WorkspaceOverview => "WorkspaceOverview",
        SystemAction::DisplayToggle => "DisplayToggle",
    }
}

/// The human-readable description of `action`.
pub fn localize_action(action: &Action) -> (r: String)
    ensures
        r@ == action_label(*action),
{
    match action {
        Action::Close => "Close window".to_owned(),
        Action::Debug => "Debug".to_owned(),
        Action::Disable => "Disable".to_owned(),
        Action::Focus(d) => match d {
            FocusDirection::Down => "Focus down".to_owned(),
            FocusDirection::In => "Focus in".to_owned(),
            FocusDirection::Left => "Focus left".to_owned(),
            FocusDirection::Out => "Focus out".to_owned(),
            FocusDirection::Right => "Focus right".to_owned(),
            FocusDirection::Up => "Focus up".to_owned(),
        },
        Action::Fullscreen => "Fullscreen window".to_owned(),
        Action::LastWorkspace => "Last workspace".to_owned(),
        Action::Maximize => "Maximize window".to_owned(),
        Action::MigrateWorkspaceToNextOutput => "Migrate workspace to next output".to_owned(),
        Action::MigrateWorkspaceToOutput(d) => match d {
            Direction::Left => "Migrate workspace left".to_owned(),
            Direction::Right => "Migrate workspace right".to_owned(),
            Direction::Up => "Migrate workspace up".to_owned(),
            Direction::Down => "Migrate workspace down".to_owned(),
        },
        Action::MigrateWorkspaceToPreviousOutput => "Migrate workspace to previous output".to_owned(),
        Action::Minimize => "Minimize window".to_owned(),
        Action::Move(d) => match d {
            Direction::Down => "Move window down".to_owned(),
            Direction::Right => "Move window right".to_owned(),
            Direction::Left => "Move window left".to_owned(),
            Direction::Up => "Move window up".to_owned(),
        },
        Action::MoveToLastWorkspace => "Move window to last workspace".to_owned(),
        Action::MoveToNextOutput => "Move window to next display".to_owned(),
        Action::MoveToNextWorkspace => "Move window to next workspace".to_owned(),
        Action::MoveToOutput(d) => match d {
            Direction::Left => "Move window one monitor left".to_owned(),
            Direction::Right => "Move window one monitor right".to_owned(),
            Direction::Up => "Move window one monitor up".to_owned(),
            Direction::Down => "Move window one monitor down".to_owned(),
        },
        Action::MoveToPreviousOutput => "Move window to prev display".to_owned(),
        Action::MoveToPreviousWorkspace => "Move window to prev wrkspace".to_owned(),
        Action::MoveToWorkspace(i) => {
            let mut v = chars_of("Move window to workspace ");
            append_decimal(&mut v, *i as u32);
            string_from_chars(&v)
        },
        Action::NextOutput => "Focus next output".to_owned(),
        Action::NextWorkspace => "Focus next workspace".to_owned(),
        Action::Orientation(d) => match d {
            Orientation::Horizontal => "Set horizontal orientation".to_owned(),
            Orientation::Vertical => "Set vertical orientation".to_owned(),
        },
        Action::PreviousOutput => "Focus previous output".to_owned(),
        Action::PreviousWorkspace => "Focus previous workspace".to_owned(),
        Action::Resizing(d) => match d {
            ResizeDirection::Inwards => "Resize window inwards".to_owned(),
            ResizeDirection::Outwards => "Resize window outwards".to_owned(),
        },
        Action::SendToLastWorkspace => "Move window to last workspace".to_owned(),
        Action::SendToNextOutput => "Move window to next display".to_owned(),
        Action::SendToNextWorkspace => "Move window to next workspace".to_owned(),
        Action::SendToOutput(d) => match d {
            Direction::Left => "Move window one monitor left".to_owned(),
            Direction::Right => "Move window one monitor right".to_owned(),
            Direction::Up => "Move window one monitor up".to_owned(),
            Direction::Down => "Move window one monitor down".to_owned(),
        },
        Action::SendToPreviousOutput => "Move window to prev display".to_owned(),
        Action::SendToPreviousWorkspace => "Move window to prev wrkspace".to_owned(),
        Action::SendToWorkspace(i) => {
            let mut v = chars_of("Move window to workspace ");
            append_decimal(&mut v, *i as u32);
            string_from_chars(&v)
        },
        Action::Spawn(task) => task.clone(),
        Action::SwapWindow => "Swap window".to_owned(),
        Action::SwitchOutput(d) => match d {
            Direction::Left => "Switch to output left".to_owned(),
            Direction::Right => "Switch to output right".to_owned(),
            Direction::Up => "Switch to output up".to_owned(),
            Direction::Down => "Switch to output down".to_owned(),
        },
        Action::System(sys) => match sys {
            SystemAction::AppLibrary => "Open the app library".to_owned(),
            SystemAction::BrightnessDown => "Decrease display brightness".to_owned(),
            SystemAction::BrightnessUp => "Increase display brightness".to_owned(),
            SystemAction::InputSourceSwitch => "Switch input source".to_owned(),
            SystemAction::HomeFolder => "Open home folder".to_owned(),
            SystemAction::KeyboardBrightnessDown => "Decrease keyboard brightness".to_owned(),
            SystemAction::KeyboardBrightnessUp => "Increase keyboard brightness".to_owned(),
            SystemAction::Launcher => "Open the Launcher".to_owned(),
            SystemAction::LogOut => "Log Out".to_owned(),
            SystemAction::LockScreen => "Lock the screen".to_owned(),
            SystemAction::Mute => "Mute audio output".to_owned(),
            SystemAction::MuteMic => "Mutes microphone input".to_owned(),
            SystemAction::PlayPause => "Play/pause".to_owned(),
            SystemAction::PlayNext => "Next track".to_owned(),
            SystemAction::PlayPrev => "Previous track".to_owned(),
            SystemAction::PowerOff => "Power off".to_owned(),
            SystemAction::Screenshot => "Take a screenshot".to_owned(),
            SystemAction::Suspend => "Suspend".to_owned(),
            SystemAction::ScreenReader => "Toggle screen reader".to_owned(),
            SystemAction::Terminal => "Open a terminal".to_owned(),
            SystemAction::TouchpadToggle => "Toggle touchpad".to_owned(),
            SystemAction::VolumeLower => "Decrease audio output volume".to_owned(),
            SystemAction::VolumeRaise => "Increase audio output volume".to_owned(),
            SystemAction::WebBrowser => "Open a web browser".to_owned(),
            SystemAction::WindowSwitcher => "Switch between open windows".to_owned(),
            SystemAction::WindowSwitcherPrevious => "Switch between open windows reversed".to_owned(),
            SystemAction::WorkspaceOverview => "Open the workspace overview".to_owned(),
            SystemAction::DisplayToggle => "Toggle internal display".to_owned(),
        },
        Action::Terminate => "Terminate".to_owned(),
        Action::ToggleOrientation => "Toggle orientation".to_owned(),
        Action::ToggleStacking => "Toggle window stacking".to_owned(),
        Action::ToggleSticky => "Toggle sticky window".to_owned(),
        Action::ToggleTiling => "Toggle window tiling".to_owned(),
        Action::ToggleWindowFloating => "Toggle window floating".to_owned(),
        Action::Workspace(i) => {
            let mut v = chars_of("Workspace ");
            append_decimal(&mut v, *i as u32);
            string_from_chars(&v)
        },
        Action::ZoomIn => "Zoom in".to_owned(),
        Action::ZoomOut => "Zoom out".to_owned(),
    }
}

/// The command text of `action` (see `action_command`).
pub fn command_of(action: &Action) -> (r: String)
    ensures
        r@ == action_command(*action),
{
    match action {
        Action::Close => "Close".to_owned(),
        Action::Debug => "Debug".to_owned(),
        Action::Disable => "Disable".to_owned(),
        Action::Focus(d) => {
            let mut v = chars_of("Focus(");
            append_str(&mut v, focus_direction_text(*d));
            append_str(&mut v, ")");
            string_from_chars(&v)
        },
        Action::Fullscreen => "Fullscreen".to_owned(),
        Action::LastWorkspace => "LastWorkspace".to_owned(),
        Action::Maximize => "Maximize".to_owned(),
        Action::MigrateWorkspaceToNextOutput => "MigrateWorkspaceToNextOutput".to_owned(),
        Action::MigrateWorkspaceToOutput(d) => {
            let mut v = chars_of("MigrateWorkspaceToOutput(");
            append_str(&mut v, direction_text(*d));
            append_str(&mut v, ")");
            string_from_chars(&v)
        },
        Action::MigrateWorkspaceToPreviousOutput => "MigrateWorkspaceToPreviousOutput".to_owned(),
        Action::Minimize => "Minimize".to_owned(),
        Action::Move(d) => {
            let mut v = chars_of("Move(");
            append_str(&mut v, direction_text(*d));
            append_str(&mut v, ")");
            string_from_chars(&v)
        },
        Action::MoveToLastWorkspace => "MoveToLastWorkspace".to_owned(),
        Action::MoveToNextOutput => "MoveToNextOutput".to_owned(),
        Action::MoveToNextWorkspace => "MoveToNextWorkspace".to_owned(),
        Action::MoveToOutput(d) => {
            let mut v = chars_of("MoveToOutput(");
            append_str(&mut v, direction_text(*d));
            append_str(&mut v, ")");
            string_from_chars(&v)
        },
        Action::MoveToPreviousOutput => "MoveToPreviousOutput".to_owned(),
        Action::MoveToPreviousWorkspace => "MoveToPreviousWorkspace".to_owned(),
        Action::MoveToWorkspace(i) => {
            let mut v = chars_of("MoveToWorkspace(");
            append_decimal(&mut v, *i as u32);
            append_str(&mut v, ")");
            string_from_chars(&v)
        },
        Action::NextOutput => "NextOutput".to_owned(),
        Action::NextWorkspace => "NextWorkspace".to_owned(),
        Action::Orientation(d) => {
            let mut v = chars_of("Orientation(");
            append_str(&mut v, orientation_text(*d));
            append_str(&mut v, ")");
            string_from_chars(&v)
        },
        Action::PreviousOutput => "PreviousOutput".to_owned(),
        Action::PreviousWorkspace => "PreviousWorkspace".to_owned(),
        Action::Resizing(d) => {
            let mut v = chars_of("Resizing(");
            append_str(&mut v, resize_direction_text(*d));
            append_str(&mut v, ")");
            string_from_chars(&v)
        },
        Action::SendToLastWorkspace => "SendToLastWorkspace".to_owned(),
        Action::SendToNextOutput => "SendToNextOutput".to_owned(),
        Action::SendToNextWorkspace => "SendToNextWorkspace".to_owned(),
        Action::SendToOutput(d) => {
            let mut v = chars_of("SendToOutput(");
            append_str(&mut v, direction_text(*d));
            append_str(&mut v, ")");
            string_from_chars(&v)
        },
        Action::SendToPreviousOutput => "SendToPreviousOutput".to_owned(),
        Action::SendToPreviousWorkspace => "SendToPreviousWorkspace".to_owned(),
        Action::SendToWorkspace(i) => {
            let mut v = chars_of("SendToWorkspace(");
            append_decimal(&mut v, *i as u32);
            append_str(&mut v, ")");
            string_from_chars(&v)
        },
        Action::Spawn(task) => task.clone(),
        Action::SwapWindow => "SwapWindow".to_owned(),
        Action::SwitchOutput(d) => {
            let mut v = chars_of("SwitchOutput(");
            append_str(&mut v, direction_text(*d));
            append_str(&mut v, ")");
            string_from_chars(&v)
        },
        Action::System(sys) => system_action_text(*sys).to_owned(),
        Action::Terminate => "Terminate".to_owned(),
        Action::ToggleOrientation => "ToggleOrientation".to_owned(),
        Action::ToggleStacking => "ToggleStacking".to_owned(),
        Action::ToggleSticky => "ToggleSticky".to_owned(),
        Action::ToggleTiling => "ToggleTiling".to_owned(),
        Action::ToggleWindowFloating => "ToggleWindowFloating".to_owned(),
        Action::Workspace(i) => {
            let mut v = chars_of("Workspace(");
            append_decimal(&mut v, *i as u32);
            append_str(&mut v, ")");
            string_from_chars(&v)
        },
        Action::ZoomIn => "ZoomIn".to_owned(),
        Action::ZoomOut => "ZoomOut".to_owned(),
    }
}


/// The modifier keys held in a key combination.
#[derive(Debug, Clone, Copy, PartialEq, Eq, Structural)]
pub struct Modifiers {
    pub ctrl: bool,
    pub alt: bool,
    pub shift: bool,
    /// The Super (Windows) key.
    pub logo: bool,
}

/// `parts` joined with `sep` between each two of them.
pub open spec fn join(parts: Seq<Seq<char>>, sep: Seq<char>) -> Seq<char>
    decreases parts.len(),
{
    if parts.len() == 0 {
        Seq::empty()
    } else if parts.len() == 1 {
        parts[0]
    } else {
        join(parts.drop_last(), sep) + sep + parts.last()
    }
}

/// The names of the held modifiers, in the order Super, Ctrl, Alt, Shift.
pub open spec fn modifier_parts(m: Modifiers) -> Seq<Seq<char>> {
    let a = if m.logo {
        seq!["Super"@]
    } else {
        Seq::<Seq<char>>::empty()
    };
    let b = if m.ctrl {
        a.push("Ctrl"@)
    } else {
        a
    };
    let c = if m.alt {
        b.push("Alt"@)
    } else {
        b
    };
    if m.shift {
        c.push("Shift"@)
    } else {
        c
    }
}

/// The modifiers as text, such as `Super + Shift`; empty when none is held.
pub open spec fn modifiers_text(m: Modifiers) -> Seq<char> {
    join(modifier_parts(m), " + "@)
}

/// The text pieces of a key combination: the modifiers, if any are held, and
/// the key's name without a `KEY_` prefix, if there is a key.
pub open spec fn keybind_parts(m: Modifiers, key: Option<(u32, Seq<char>)>) -> Seq<Seq<char>> {
    let a = if modifiers_text(m).len() > 0 {
        seq![modifiers_text(m)]
    } else {
        Seq::<Seq<char>>::empty()
    };
    match key {
        Some((_, name)) => a.push(strip_prefix_or_keep(name, "KEY_"@)),
        None => a,
    }
}

/// A key combination as text, such as `Super + Shift + Return`.
pub open spec fn keybind_text(m: Modifiers, key: Option<(u32, Seq<char>)>) -> Seq<char> {
    join(keybind_parts(m, key), " + "@)
}

/// A keyboard symbol: its raw code and the name that xkbcommon gives it.
///
/// The name is looked up by the caller (`xkb::keysym_get_name`, which calls
/// into the libxkbcommon C library); the texts that this module builds speak
/// of the name as given here.
#[derive(Debug, Clone)]
pub struct Keysym {
    pub raw: u32,
    /// The keysym's name (`xkb::keysym_get_name`), such as `Return`.
    pub name: String,
}

/// A key binding as the overlay lists it.
#[derive(Debug, Clone)]
pub struct KeyBinding {
    pub modifiers: Modifiers,
    pub key: Option<Keysym>,
    pub description: String,
    /// Text of the underlying action or command.
    pub _command: String,
    /// The text shown for the key combinations when several bindings share
    /// one description.
    pub keybind_display: Option<String>,
}

/// The content of a key binding as plain values.
pub struct KeyBindingView {
    pub modifiers: Modifiers,
    pub key: Option<(u32, Seq<char>)>,
    pub description: Seq<char>,
    pub command: Seq<char>,
    pub keybind_display: Option<Seq<char>>,
}

/// A keysym as `(raw code, name)`.
pub open spec fn keysym_view(k: Option<Keysym>) -> Option<(u32, Seq<char>)> {
    match k {
        Some(k) => Some((k.raw, k.name@)),
        None => None,
    }
}

/// The characters of an optional string.
pub open spec fn text_view(t: Option<String>) -> Option<Seq<char>> {
    match t {
        Some(t) => Some(t@),
        None => None,
    }
}

impl View for KeyBinding {
    type V = KeyBindingView;

    open spec fn view(&self) -> KeyBindingView {
        KeyBindingView {
            modifiers: self.modifiers,
            key: keysym_view(self.key),
            description: self.description@,
            command: self._command@,
            keybind_display: text_view(self.keybind_display),
        }
    }
}

/// The text that the overlay shows for a binding's keys.
pub open spec fn binding_text(b: KeyBindingView) -> Seq<char> {
    match b.keybind_display {
        Some(d) => d,
        None => keybind_text(b.modifiers, b.key),
    }
}

/// One shortcut of the desktop's settings: a key combination and its action.
pub struct Shortcut {
    pub modifiers: Modifiers,
    pub key: Option<Keysym>,
    /// The description that the settings give the binding, if any.
    pub description: Option<String>,
    pub action: Action,
}

/// The content of a shortcut as plain values.
pub struct ShortcutView {
    pub modifiers: Modifiers,
    pub key: Option<(u32, Seq<char>)>,
    pub description: Option<Seq<char>>,
    pub action: Action,
}

impl View for Shortcut {
    type V = ShortcutView;

    open spec fn view(&self) -> ShortcutView {
        ShortcutView {
            modifiers: self.modifiers,
            key: keysym_view(self.key),
            description: text_view(self.description),
            action: self.action,
        }
    }
}

/// The binding that a shortcut which does not disable its keys gives.
pub open spec fn shortcut_binding(s: ShortcutView) -> KeyBindingView {
    KeyBindingView {
        modifiers: s.modifiers,
        key: s.key,
        description: match s.description {
            Some(d) => d,
            None => action_label(s.action),
        },
        command: action_command(s.action),
        keybind_display: None,
    }
}

/// The bindings of the shortcuts, in order, without those that disable keys.
pub open spec fn bindings_of(ss: Seq<ShortcutView>) -> Seq<KeyBindingView>
    decreases ss.len(),
{
    if ss.len() == 0 {
        Seq::empty()
    } else if ss.last().action is Disable {
        bindings_of(ss.drop_last())
    } else {
        bindings_of(ss.drop_last()).push(shortcut_binding(ss.last()))
    }
}

/// The bindings with description `d`, in order.
pub open spec fn group(bs: Seq<KeyBindingView>, d: Seq<char>) -> Seq<KeyBindingView>
    decreases bs.len(),
{
    if bs.len() == 0 {
        Seq::empty()
    } else if bs.last().description == d {
        group(bs.drop_last(), d).push(bs.last())
    } else {
        group(bs.drop_last(), d)
    }
}

/// The one entry that the bindings with description `d` become: the first of
/// them, showing the key combinations of the first two when there are several.
pub open spec fn merged(bs: Seq<KeyBindingView>, d: Seq<char>) -> KeyBindingView {
    let g = group(bs, d);
    if g.len() > 1 {
        KeyBindingView {
            modifiers: g[0].modifiers,
            key: g[0].key,
            description: g[0].description,
            command: g[0].command,
            keybind_display: Some(
                keybind_text(g[0].modifiers, g[0].key) + " / "@ + keybind_text(
                    g[1].modifiers,
                    g[1].key,
                ),
            ),
        }
    } else {
        g[0]
    }
}

/// The name that `xkeysym::Keysym::name` gives the keysym `raw`.
pub uninterp spec fn xkeysym_name(raw: u32) -> Option<Seq<char>>;

/// Whether a binding's key is a multimedia (`XF86…`) keysym.
pub open spec fn is_xf86(b: KeyBindingView) -> bool {
    match b.key {
        Some((raw, _)) => match xkeysym_name(raw) {
            Some(n) => "XF86"@.is_prefix_of(n),
            None => false,
        },
        None => false,
    }
}

/// The name of the keysym `raw` from the xkeysym tables (`Keysym::name`),
/// such as `XK_Return` or `XF86XK_AudioMute`.  The contract claims only that
/// the result is a function of `raw`.
#[verifier::external_body]
fn keysym_table_name(raw: u32) -> (r: Option<String>)
    ensures
        text_view(r) == xkeysym_name(raw),
{
    match xkeysym::Keysym::new(raw).name() {
        Some(n) => Some(n.to_string()),
        None => None,
    }
}

/// The characters of each part.
pub open spec fn parts_view(parts: Seq<Vec<char>>) -> Seq<Seq<char>> {
    parts.map_values(|p: Vec<char>| p@)
}

fn join_parts(parts: &Vec<Vec<char>>, sep: &str) -> (v: Vec<char>)
    ensures
        v@ == join(parts_view(parts@), sep@),
{
    let ghost pv = parts_view(parts@);
    let mut v: Vec<char> = Vec::new();
    let mut i: usize = 0;
    while i < parts.len()
        invariant
            i <= parts.len(),
            pv == parts_view(parts@),
            v@ == join(pv.take(i as int), sep@),
        decreases parts.len() - i,
    {
        let ghost before = v@;
        if i > 0 {
            append_str(&mut v, sep);
        }
        append_chars(&mut v, &parts[i]);
        assert(pv.take(i + 1).drop_last() =~= pv.take(i as int));
        assert(pv.take(i + 1).last() == parts@[i as int]@);
        if i == 0 {
            assert(before =~= Seq::<char>::empty());
            assert(v@ =~= pv.take(1)[0]);
        }
        i = i + 1;
    }
    assert(pv.take(parts.len() as int) =~= pv);
    v
}

fn modifiers_chars(m: Modifiers) -> (v: Vec<char>)
    ensures
        v@ == modifiers_text(m),
{
    let mut parts: Vec<Vec<char>> = Vec::new();
    let ghost a = if m.logo {
        seq!["Super"@]
    } else {
        Seq::<Seq<char>>::empty()
    };
    if m.logo {
        parts.push(chars_of("Super"));
    }
    assert(parts_view(parts@) =~= a);
    let ghost b = if m.ctrl {
        a.push("Ctrl"@)
    } else {
        a
    };
    if m.ctrl {
        parts.push(chars_of("Ctrl"));
    }
    assert(parts_view(parts@) =~= b);
    let ghost c = if m.alt {
        b.push("Alt"@)
    } else {
        b
    };
    if m.alt {
        parts.push(chars_of("Alt"));
    }
    assert(parts_view(parts@) =~= c);
    if m.shift {
        parts.push(chars_of("Shift"));
    }
    assert(parts_view(parts@) =~= modifier_parts(m));
    join_parts(&parts, " + ")
}

impl Modifiers {
    /// No modifier held.
    pub fn new() -> (m: Self)
        ensures
            !m.ctrl && !m.alt && !m.shift && !m.logo,
    {
        Modifiers { ctrl: false, alt: false, shift: false, logo: false }
    }

    /// The held modifiers as text, such as `Super + Ctrl`; empty when none is held.
    pub fn to_string(&self) -> (s: String)
        ensures
            s@ == modifiers_text(*self),
    {
        let v = modifiers_chars(*self);
        string_from_chars(&v)
    }
}

fn keybind_chars(m: Modifiers, key: &Option<Keysym>) -> (v: Vec<char>)
    ensures
        v@ == keybind_text(m, keysym_view(*key)),
{
    let mut parts: Vec<Vec<char>> = Vec::new();
    let ms = modifiers_chars(m);
    if ms.len() > 0 {
        parts.push(ms);
    }
    let ghost a = if modifiers_text(m).len() > 0 {
        seq![modifiers_text(m)]
    } else {
        Seq::<Seq<char>>::empty()
    };
    assert(parts_view(parts@) =~= a);
    match key {
        Some(k) => {
            let name = chars_of(k.name.as_str());
            let prefix = chars_of("KEY_");
            let mut stripped: Vec<char> = Vec::new();
            if starts_with_at(&name, 0, name.len(), &prefix) {
                append_range(&mut stripped, &name, prefix.len(), name.len());
                assert(name@.subrange(0, name@.len() as int) =~= name@);
            } else {
                append_chars(&mut stripped, &name);
                assert(name@.subrange(0, name@.len() as int) =~= name@);
            }
            assert(stripped@ =~= strip_prefix_or_keep(k.name@, "KEY_"@));
            parts.push(stripped);
        },
        None => {},
    }
    assert(parts_view(parts@) =~= keybind_parts(m, keysym_view(*key)));
    join_parts(&parts, " + ")
}

impl KeyBinding {
    /// The text shown for this binding's keys: the prepared text when several
    /// bindings share the description, else the modifiers and the key's name
    /// joined by ` + `.
    pub fn to_string(&self) -> (s: String)
        ensures
            s@ == binding_text(self@),
    {
        match &self.keybind_display {
            Some(d) => d.clone(),
            None => {
                let v = keybind_chars(self.modifiers, &self.key);
                string_from_chars(&v)
            },
        }
    }
}

fn copy_keysym(k: &Option<Keysym>) -> (r: Option<Keysym>)
    ensures
        keysym_view(r) == keysym_view(*k),
{
    match k {
        Some(k) => Some(Keysym { raw: k.raw, name: k.name.clone() }),
        None => None,
    }
}

fn copy_text(t: &Option<String>) -> (r: Option<String>)
    ensures
        text_view(r) == text_view(*t),
{
    match t {
        Some(t) => Some(t.clone()),
        None => None,
    }
}

fn copy_binding(b: &KeyBinding) -> (r: KeyBinding)
    ensures
        r@ == b@,
{
    KeyBinding {
        modifiers: b.modifiers,
        key: copy_keysym(&b.key),
        description: b.description.clone(),
        _command: b._command.clone(),
        keybind_display: copy_text(&b.keybind_display),
    }
}

fn binding_of(s: &Shortcut) -> (b: KeyBinding)
    ensures
        b@ == shortcut_binding(s@),
{
    let description = match &s.description {
        Some(d) => d.clone(),
        None => localize_action(&s.action),
    };
    KeyBinding {
        modifiers: s.modifiers,
        key: copy_keysym(&s.key),
        description,
        _command: command_of(&s.action),
        keybind_display: None,
    }
}

/// The shortcuts as plain values.
pub open spec fn shortcuts_view(ss: Seq<Shortcut>) -> Seq<ShortcutView> {
    ss.map_values(|s: Shortcut| s@)
}

/// The bindings as plain values.
pub open spec fn bindings_view(bs: Seq<KeyBinding>) -> Seq<KeyBindingView> {
    bs.map_values(|b: KeyBinding| b@)
}

/// Whether the descriptions strictly increase along `r`.
pub open spec fn is_sorted_by_description(r: Seq<KeyBindingView>) -> bool {
    forall|i: int, j: int|
        0 <= i < j < r.len() ==> lex_less(#[trigger] r[i].description, #[trigger] r[j].description)
}

/// Whether no binding of `bs` has a prepared key text yet.
pub open spec fn none_prepared(bs: Seq<KeyBindingView>) -> bool {
    forall|k: int| 0 <= k < bs.len() ==> (#[trigger] bs[k]).keybind_display is None
}

proof fn lemma_bindings_of_unprepared(ss: Seq<ShortcutView>)
    ensures
        none_prepared(bindings_of(ss)),
    decreases ss.len(),
{
    if ss.len() > 0 {
        lemma_bindings_of_unprepared(ss.drop_last());
    }
}

proof fn lemma_group_push(p: Seq<KeyBindingView>, b: KeyBindingView, d: Seq<char>)
    ensures
        group(p.push(b), d) == (if b.description == d {
            group(p, d).push(b)
        } else {
            group(p, d)
        }),
{
    assert(p.push(b).drop_last() =~= p);
}

proof fn lemma_group_members(p: Seq<KeyBindingView>, d: Seq<char>)
    ensures
        forall|k: int|
            0 <= k < group(p, d).len() ==> (#[trigger] group(p, d)[k]).description == d
                && p.contains(group(p, d)[k]),
    decreases p.len(),
{
    if p.len() > 0 {
        lemma_group_members(p.drop_last(), d);
        assert forall|k: int| 0 <= k < group(p, d).len() implies (#[trigger] group(
            p,
            d,
        )[k]).description == d && p.contains(group(p, d)[k]) by {
            if k < group(p.drop_last(), d).len() {
                let x = group(p.drop_last(), d)[k];
                assert(group(p, d)[k] == x);
                let m = choose|m: int| 0 <= m < p.drop_last().len() && p.drop_last()[m] == x;
                assert(p[m] == x);
            } else {
                assert(group(p, d)[k] == p.last());
                assert(p[p.len() - 1] == p.last());
            }
        }
    }
}

fn active_bindings(shortcuts: &Vec<Shortcut>) -> (out: Vec<KeyBinding>)
    ensures
        bindings_view(out@) == bindings_of(shortcuts_view(shortcuts@)),
{
    let ghost sv = shortcuts_view(shortcuts@);
    let mut out: Vec<KeyBinding> = Vec::new();
    let mut i: usize = 0;
    while i < shortcuts.len()
        invariant
            i <= shortcuts.len(),
            sv == shortcuts_view(shortcuts@),
            bindings_view(out@) == bindings_of(sv.take(i as int)),
        decreases shortcuts.len() - i,
    {
        assert(sv.take(i + 1).drop_last() =~= sv.take(i as int));
        assert(sv.take(i + 1).last() == shortcuts@[i as int]@);
        match &shortcuts[i].action {
            Action::Disable => {},
            _ => {
                let b = binding_of(&shortcuts[i]);
                let ghost before = out@;
                out.push(b);
                assert(bindings_view(out@) =~= bindings_view(before).push(b@));
            },
        }
        i = i + 1;
    }
    assert(sv.take(shortcuts.len() as int) =~= sv);
    out
}

/// `r` holds one entry per description that occurs in `p`, each the merged
/// entry of its description, sorted by description.
pub open spec fn is_grouping_of(r: Seq<KeyBindingView>, p: Seq<KeyBindingView>) -> bool {
    &&& is_sorted_by_description(r)
    &&& forall|j: int|
        0 <= j < r.len() ==> #[trigger] r[j] == merged(p, r[j].description) && group(
            p,
            r[j].description,
        ).len() > 0
    &&& forall|d: Seq<char>|
        #[trigger] group(p, d).len() > 0 ==> exists|j: int|
            0 <= j < r.len() && (#[trigger] r[j]).description == d
}

proof fn lemma_group_other(p: Seq<KeyBindingView>, b: KeyBindingView)
    ensures
        forall|dd: Seq<char>|
            dd != b.description ==> #[trigger] group(p.push(b), dd) == group(p, dd),
{
    assert forall|dd: Seq<char>| dd != b.description implies #[trigger] group(p.push(b), dd)
        == group(p, dd) by {
        lemma_group_push(p, b, dd);
    }
}

/// Adding a binding whose description already has an entry: the entry becomes `e`.
proof fn lemma_grouping_update(
    r: Seq<KeyBindingView>,
    p: Seq<KeyBindingView>,
    b: KeyBindingView,
    pos: int,
    e: KeyBindingView,
)
    requires
        is_grouping_of(r, p),
        0 <= pos < r.len(),
        r[pos].description == b.description,
        e.description == b.description,
        e == merged(p.push(b), b.description),
    ensures
        is_grouping_of(r.update(pos, e), p.push(b)),
{
    let pp = p.push(b);
    let rr = r.update(pos, e);
    let d = b.description;
    lemma_group_other(p, b);
    lemma_group_push(p, b, d);
    assert forall|j: int| 0 <= j < rr.len() implies #[trigger] rr[j] == merged(
        pp,
        rr[j].description,
    ) && group(pp, rr[j].description).len() > 0 by {
        if j != pos {
            assert(rr[j] == r[j]);
            lemma_lex_irreflexive(d);
            if j < pos {
                assert(lex_less(r[j].description, r[pos].description));
            } else {
                assert(lex_less(r[pos].description, r[j].description));
            }
            assert(r[j].description != d);
            assert(group(pp, r[j].description) == group(p, r[j].description));
        }
    }
    assert forall|dd: Seq<char>| #[trigger] group(pp, dd).len() > 0 implies exists|j: int|
        0 <= j < rr.len() && (#[trigger] rr[j]).description == dd by {
        if dd != d {
            assert(group(pp, dd) == group(p, dd));
            let j = choose|j: int| 0 <= j < r.len() && (#[trigger] r[j]).description == dd;
            assert(rr[j].description == dd);
        } else {
            assert(rr[pos].description == dd);
        }
    }
    assert forall|i: int, j: int| 0 <= i < j < rr.len() implies lex_less(
        #[trigger] rr[i].description,
        #[trigger] rr[j].description,
    ) by {
        assert(lex_less(r[i].description, r[j].description));
    }
}

/// Adding a binding with a new description at the place that keeps the order.
proof fn lemma_grouping_insert(
    r: Seq<KeyBindingView>,
    p: Seq<KeyBindingView>,
    b: KeyBindingView,
    pos: int,
)
    requires
        is_grouping_of(r, p),
        b.keybind_display is None,
        0 <= pos <= r.len(),
        forall|m: int| 0 <= m < pos ==> lex_less(#[trigger] r[m].description, b.description),
        pos < r.len() ==> r[pos].description != b.description && !lex_less(
            r[pos].description,
            b.description,
        ),
    ensures
        is_grouping_of(r.insert(pos, b), p.push(b)),
{
    let pp = p.push(b);
    let rr = r.insert(pos, b);
    let d = b.description;
    lemma_group_other(p, b);
    lemma_group_push(p, b, d);
    if pos < r.len() {
        lemma_lex_total(r[pos].description, d);
    }
    assert forall|j: int| pos <= j < r.len() implies lex_less(d, #[trigger] r[j].description) by {
        if j > pos {
            lemma_lex_transitive(d, r[pos].description, r[j].description);
        }
    }
    lemma_lex_irreflexive(d);
    if group(p, d).len() > 0 {
        let j = choose|j: int| 0 <= j < r.len() && (#[trigger] r[j]).description == d;
        if j < pos {
            assert(lex_less(r[j].description, d));
        } else {
            assert(lex_less(d, r[j].description));
        }
    }
    assert(group(pp, d) =~= seq![b]);
    assert forall|j: int| 0 <= j < rr.len() implies #[trigger] rr[j] == merged(
        pp,
        rr[j].description,
    ) && group(pp, rr[j].description).len() > 0 by {
        if j == pos {
            assert(rr[j] == b);
            assert(group(pp, d).len() == 1);
            assert(merged(pp, d) == group(pp, d)[0]);
        } else if j < pos {
            let x = r[j];
            assert(rr[j] == x);
            assert(x == merged(p, x.description) && group(p, x.description).len() > 0);
            assert(lex_less(x.description, d));
            assert(x.description != d);
            assert(group(pp, x.description) == group(p, x.description));
            assert(merged(pp, x.description) == merged(p, x.description));
        } else {
            let x = r[j - 1];
            assert(rr[j] == x);
            assert(x == merged(p, x.description) && group(p, x.description).len() > 0);
            assert(lex_less(d, x.description));
            assert(x.description != d);
            assert(group(pp, x.description) == group(p, x.description));
            assert(merged(pp, x.description) == merged(p, x.description));
        }
        assert(rr[j] == merged(pp, rr[j].description));
        assert(group(pp, rr[j].description).len() > 0);
    }
    assert forall|dd: Seq<char>| #[trigger] group(pp, dd).len() > 0 implies exists|j: int|
        0 <= j < rr.len() && (#[trigger] rr[j]).description == dd by {
        if dd != d {
            assert(group(pp, dd) == group(p, dd));
            let j = choose|j: int| 0 <= j < r.len() && (#[trigger] r[j]).description == dd;
            if j < pos {
                assert(rr[j] == r[j]);
            } else {
                assert(rr[j + 1] == r[j]);
            }
        } else {
            assert(rr[pos].description == dd);
        }
    }
    assert forall|i: int, j: int| 0 <= i < j < rr.len() implies lex_less(
        #[trigger] rr[i].description,
        #[trigger] rr[j].description,
    ) by {
        if i < pos && j == pos {
        } else if i < pos && j > pos {
            lemma_lex_transitive(r[i].description, d, r[j - 1].description);
        } else if i == pos {
        } else if i < pos {
            assert(lex_less(r[i].description, r[j].description));
        } else {
            assert(lex_less(r[i - 1].description, r[j - 1].description));
        }
    }
}

/// The entry of a description that has been seen once gets the key texts of
/// both bindings; an entry that has been seen more often stays as it is.
proof fn lemma_merged_next(p: Seq<KeyBindingView>, b: KeyBindingView)
    requires
        none_prepared(p),
        group(p, b.description).len() > 0,
    ensures
        merged(p, b.description).keybind_display is None ==> group(p, b.description).len() == 1
            && merged(p.push(b), b.description) == (KeyBindingView {
            keybind_display: Some(
                keybind_text(merged(p, b.description).modifiers, merged(p, b.description).key)
                    + " / "@ + keybind_text(b.modifiers, b.key),
            ),
            ..merged(p, b.description)
        }),
        merged(p, b.description).keybind_display is Some ==> merged(p.push(b), b.description)
            == merged(p, b.description),
{
    let d = b.description;
    let g = group(p, d);
    lemma_group_push(p, b, d);
    if g.len() == 1 {
        lemma_group_members(p, d);
        assert(p.contains(g[0]));
        let m = choose|m: int| 0 <= m < p.len() && p[m] == g[0];
        assert(p[m].keybind_display is None);
    }
}

/// The place of description `d` among the sorted entries of `res`: every entry
/// before it comes before `d`, and the entry there (if any) does not.
fn description_position(res: &Vec<KeyBinding>, d: &Vec<char>) -> (pos: usize)
    ensures
        pos <= res.len(),
        forall|m: int| 0 <= m < pos ==> lex_less(#[trigger] res@[m]@.description, d@),
        pos < res.len() ==> !lex_less(res@[pos as int]@.description, d@),
{
    let mut pos: usize = 0;
    while pos < res.len() && lex_less_chars(&chars_of(res[pos].description.as_str()), d)
        invariant
            pos <= res.len(),
            forall|m: int| 0 <= m < pos ==> lex_less(#[trigger] res@[m]@.description, d@),
        decreases res.len() - pos,
    {
        pos = pos + 1;
    }
    pos
}

/// Adds binding `b` to a grouping of `p`, giving a grouping of `p` followed by `b`.
fn add_to_grouping(res: &mut Vec<KeyBinding>, b: &KeyBinding, Ghost(p): Ghost<Seq<KeyBindingView>>)
    requires
        is_grouping_of(bindings_view(old(res)@), p),
        none_prepared(p.push(b@)),
    ensures
        is_grouping_of(bindings_view(final(res)@), p.push(b@)),
{
    let ghost r0 = bindings_view(res@);
    proof {
        assert(none_prepared(p)) by {
            assert forall|k: int| 0 <= k < p.len() implies (#[trigger] p[k]).keybind_display is None by {
                assert(p.push(b@)[k] == p[k]);
            }
        }
        assert(p.push(b@)[p.len() as int] == b@);
    }
    let d = chars_of(b.description.as_str());
    let pos = description_position(res, &d);
    if pos < res.len() {
        assert(r0[pos as int] == res@[pos as int]@);
    }
    assert forall|m: int| 0 <= m < pos implies lex_less(#[trigger] r0[m].description, b@.description) by {
        assert(r0[m] == res@[m]@);
    }
    let found = pos < res.len() && chars_eq(&chars_of(res[pos].description.as_str()), &d);
    if found {
        proof {
            lemma_merged_next(p, b@);
        }
        if res[pos].keybind_display.is_none() {
            let mut text = keybind_chars(res[pos].modifiers, &res[pos].key);
            append_str(&mut text, " / ");
            let second = keybind_chars(b.modifiers, &b.key);
            append_chars(&mut text, &second);
            let mut e = res.remove(pos);
            e.keybind_display = Some(string_from_chars(&text));
            res.insert(pos, e);
            proof {
                assert(bindings_view(res@) =~= r0.update(pos as int, e@));
                lemma_grouping_update(r0, p, b@, pos as int, e@);
            }
        } else {
            proof {
                assert(r0.update(pos as int, r0[pos as int]) =~= r0);
                lemma_grouping_update(r0, p, b@, pos as int, r0[pos as int]);
            }
        }
    } else {
        let nb = copy_binding(b);
        res.insert(pos, nb);
        proof {
            assert(bindings_view(res@) =~= r0.insert(pos as int, b@));
            lemma_grouping_insert(r0, p, b@, pos as int);
        }
    }
}

/// The bindings grouped by description: one merged entry per description,
/// sorted by description.
fn group_by_description(bs: &Vec<KeyBinding>) -> (res: Vec<KeyBinding>)
    requires
        none_prepared(bindings_view(bs@)),
    ensures
        is_grouping_of(bindings_view(res@), bindings_view(bs@)),
{
    let ghost bv = bindings_view(bs@);
    let mut res: Vec<KeyBinding> = Vec::new();
    let mut k: usize = 0;
    assert(is_grouping_of(bindings_view(res@), bv.take(0)));
    while k < bs.len()
        invariant
            k <= bs.len(),
            bv == bindings_view(bs@),
            none_prepared(bv),
            is_grouping_of(bindings_view(res@), bv.take(k as int)),
        decreases bs.len() - k,
    {
        let ghost p = bv.take(k as int);
        proof {
            assert(bv.take(k + 1) =~= p.push(bs@[k as int]@));
            assert forall|j: int| 0 <= j < k + 1 implies (#[trigger] bv.take(k + 1)[j]).keybind_display is None by {
                assert(bv.take(k + 1)[j] == bv[j]);
            }
        }
        add_to_grouping(&mut res, &bs[k], Ghost(p));
        k = k + 1;
    }
    assert(bv.take(bs.len() as int) =~= bv);
    res
}

fn has_multimedia_key(b: &KeyBinding) -> (r: bool)
    ensures
        r == is_xf86(b@),
{
    match &b.key {
        Some(k) => match keysym_table_name(k.raw) {
            Some(n) => {
                let name = chars_of(n.as_str());
                let prefix = chars_of("XF86");
                let r = starts_with_at(&name, 0, name.len(), &prefix);
                assert(name@.subrange(0, name@.len() as int) =~= name@);
                r
            },
            None => false,
        },
        None => false,
    }
}

/// The entries of `res` whose key is no multimedia (`XF86…`) keysym, in order.
fn without_multimedia_keys(res: Vec<KeyBinding>) -> (out: Vec<KeyBinding>)
    ensures
        is_sorted_by_description(bindings_view(res@)) ==> is_sorted_by_description(
            bindings_view(out@),
        ),
        forall|j: int|
            0 <= j < out.len() ==> !is_xf86((#[trigger] out@[j])@) && exists|m: int|
                0 <= m < res.len() && res@[m]@ == out@[j]@,
        forall|m: int|
            0 <= m < res.len() && !is_xf86((#[trigger] res@[m])@) ==> exists|j: int|
                0 <= j < out.len() && out@[j]@ == res@[m]@,
{
    let ghost rv = bindings_view(res@);
    let mut out: Vec<KeyBinding> = Vec::new();
    let mut k: usize = 0;
    while k < res.len()
        invariant
            k <= res.len(),
            rv == bindings_view(res@),
            is_sorted_by_description(rv) ==> is_sorted_by_description(bindings_view(out@)),
            is_sorted_by_description(rv) ==> forall|a: int, m: int|
                0 <= a < out.len() && k <= m < res.len() ==> lex_less(
                    #[trigger] out@[a]@.description,
                    #[trigger] rv[m].description,
                ),
            forall|j: int|
                0 <= j < out.len() ==> !is_xf86((#[trigger] out@[j])@) && exists|m: int|
                    0 <= m < res.len() && res@[m]@ == out@[j]@,
            forall|m: int|
                0 <= m < k && !is_xf86((#[trigger] res@[m])@) ==> exists|j: int|
                    0 <= j < out.len() && out@[j]@ == res@[m]@,
        decreases res.len() - k,
    {
        let ghost out0 = out@;
        assert(rv[k as int] == res@[k as int]@);
        if !has_multimedia_key(&res[k]) {
            let b = copy_binding(&res[k]);
            out.push(b);
            proof {
                assert(out@[out0.len() as int] == b);
                if is_sorted_by_description(rv) {
                    assert forall|a: int, m: int|
                        0 <= a < out.len() && k + 1 <= m < res.len() implies lex_less(
                        #[trigger] out@[a]@.description,
                        #[trigger] rv[m].description,
                    ) by {
                        if a < out0.len() {
                            assert(out@[a] == out0[a]);
                        } else {
                            assert(lex_less(rv[k as int].description, rv[m].description));
                        }
                    }
                    assert forall|i: int, j: int|
                        0 <= i < j < bindings_view(out@).len() implies lex_less(
                        #[trigger] bindings_view(out@)[i].description,
                        #[trigger] bindings_view(out@)[j].description,
                    ) by {
                        assert(bindings_view(out@)[i] == out@[i]@);
                        assert(bindings_view(out@)[j] == out@[j]@);
                        if j < out0.len() {
                            assert(bindings_view(out0)[i] == out0[i]@);
                            assert(bindings_view(out0)[j] == out0[j]@);
                        } else {
                            assert(out@[i] == out0[i]);
                            assert(lex_less(out0[i]@.description, rv[k as int].description));
                        }
                    }
                }
                assert forall|j: int| 0 <= j < out.len() implies !is_xf86(
                    (#[trigger] out@[j])@,
                ) && exists|m: int| 0 <= m < res.len() && res@[m]@ == out@[j]@ by {
                    if j < out0.len() {
                        assert(out@[j] == out0[j]);
                    } else {
                        assert(res@[k as int]@ == out@[j]@);
                    }
                }
                assert forall|m: int|
                    0 <= m < k + 1 && !is_xf86((#[trigger] res@[m])@) implies exists|j: int|
                    0 <= j < out.len() && out@[j]@ == res@[m]@ by {
                    if m < k {
                        let j = choose|j: int| 0 <= j < out0.len() && out0[j]@ == res@[m]@;
                        assert(out@[j] == out0[j]);
                    } else {
                        assert(out@[out0.len() as int]@ == res@[m]@);
                    }
                }
            }
        }
        k = k + 1;
    }
    out
}

/// The overlay's list of key bindings made from the desktop's shortcuts.
///
/// Shortcuts that disable their keys are dropped.  The others become bindings
/// described by their own description or else by their action's description.
/// Bindings that share a description become one entry: the first of them,
/// which shows the key combinations of the first two when there are several.
/// Entries whose key is a multimedia (`XF86…`) keysym are left out, and the
/// rest are sorted by description.
pub fn collect_keybindings(shortcuts: &Vec<Shortcut>) -> (r: Vec<KeyBinding>)
    ensures
        is_sorted_by_description(bindings_view(r@)),
        forall|j: int|
            0 <= j < r.len() ==> (#[trigger] r@[j])@ == merged(
                bindings_of(shortcuts_view(shortcuts@)),
                r@[j]@.description,
            ) && group(bindings_of(shortcuts_view(shortcuts@)), r@[j]@.description).len() > 0
                && !is_xf86(r@[j]@),
        forall|d: Seq<char>|
            #![trigger group(bindings_of(shortcuts_view(shortcuts@)), d)]
            group(bindings_of(shortcuts_view(shortcuts@)), d).len() > 0 && !is_xf86(
                merged(bindings_of(shortcuts_view(shortcuts@)), d),
            ) ==> exists|j: int| 0 <= j < r.len() && (#[trigger] r@[j])@.description == d,
        forall|j: int|
            0 <= j < r.len() ==> !exists|raw: u32, name: Seq<char>, n: Seq<char>|
                (#[trigger] r@[j])@.key == Some((raw, name)) && xkeysym_name(raw) == Some(n)
                    && begins_with_xf86(n),
{
    let bs = active_bindings(shortcuts);
    proof {
        lemma_bindings_of_unprepared(shortcuts_view(shortcuts@));
    }
    let grouped = group_by_description(&bs);
    let ghost gv = bindings_view(grouped@);
    let ghost bv = bindings_view(bs@);
    let out = without_multimedia_keys(grouped);
    proof {
        assert forall|j: int| 0 <= j < out.len() implies (#[trigger] out@[j])@ == merged(
            bv,
            out@[j]@.description,
        ) && group(bv, out@[j]@.description).len() > 0 && !is_xf86(out@[j]@) by {
            let m = choose|m: int| 0 <= m < gv.len() && grouped@[m]@ == out@[j]@;
            assert(gv[m] == grouped@[m]@);
        }
        assert forall|d: Seq<char>| #[trigger] group(bv, d).len() > 0 && !is_xf86(merged(bv, d))
            implies exists|j: int| 0 <= j < out.len() && (#[trigger] out@[j])@.description == d by {
            let m = choose|m: int| 0 <= m < gv.len() && (#[trigger] gv[m]).description == d;
            assert(gv[m] == grouped@[m]@);
            let j = choose|j: int| 0 <= j < out.len() && out@[j]@ == grouped@[m]@;
        }
        assert forall|j: int| 0 <= j < out.len() implies !exists|raw: u32, name: Seq<char>, n: Seq<char>|
            (#[trigger] out@[j])@.key == Some((raw, name)) && xkeysym_name(raw) == Some(n)
                && begins_with_xf86(n) by {
            lemma_multimedia_bindings_are_the_xf86_keys(out@[j]@);
        }
    }
    out
}

/// A shortcut that disables its keys adds no binding.
pub proof fn lemma_disabling_shortcut_adds_nothing(ss: Seq<ShortcutView>, s: ShortcutView)
    requires
        s.action is Disable,
    ensures
        bindings_of(ss.push(s)) == bindings_of(ss),
{
    assert(ss.push(s).drop_last() =~= ss);
}

/// An entry shows at most two key combinations: its own and, when several
/// bindings share its description, the second one's.
pub proof fn lemma_merged_shows_first_two(bs: Seq<KeyBindingView>, d: Seq<char>)
    requires
        group(bs, d).len() > 0,
        none_prepared(bs),
    ensures
        binding_text(merged(bs, d)) == (if group(bs, d).len() > 1 {
            keybind_text(group(bs, d)[0].modifiers, group(bs, d)[0].key) + " / "@ + keybind_text(
                group(bs, d)[1].modifiers,
                group(bs, d)[1].key,
            )
        } else {
            keybind_text(group(bs, d)[0].modifiers, group(bs, d)[0].key)
        }),
        merged(bs, d).description == d,
{
    lemma_group_members(bs, d);
    let g = group(bs, d);
    assert(bs.contains(g[0]));
    let m = choose|m: int| 0 <= m < bs.len() && bs[m] == g[0];
    assert(bs[m].keybind_display is None);
}

/// Whether the characters `n` begin with `X`, `F`, `8`, `6`: the names that the
/// xkeysym tables give the multimedia keys (`XF86XK_AudioMute`,
/// `XF86XK_MonBrightnessUp`, ...).
pub open spec fn begins_with_xf86(n: Seq<char>) -> bool {
    &&& n.len() >= 4
    &&& n[0] == 'X'
    &&& n[1] == 'F'
    &&& n[2] == '8'
    &&& n[3] == '6'
}

/// A binding is left out as a multimedia binding exactly when it has a key and
/// the xkeysym name of that key begins with `XF86`.
pub proof fn lemma_multimedia_bindings_are_the_xf86_keys(b: KeyBindingView)
    ensures
        is_xf86(b) <==> exists|raw: u32, name: Seq<char>, n: Seq<char>|
            b.key == Some((raw, name)) && xkeysym_name(raw) == Some(n) && begins_with_xf86(n),
{
    reveal_strlit("XF86");
    match b.key {
        Some((raw, _)) => match xkeysym_name(raw) {
            Some(n) => {
                if begins_with_xf86(n) {
                    assert("XF86"@ =~= n.subrange(0, 4));
                }
                let (_, name) = b.key->0;
                assert(b.key == Some((raw, name)));
                if "XF86"@.is_prefix_of(n) {
                    assert(n[0] == "XF86"@[0] && n[1] == "XF86"@[1]);
                    assert(n[2] == "XF86"@[2] && n[3] == "XF86"@[3]);
                }
            },
            None => {},
        },
        None => {},
    }
}

/// ASCII lower case: `A`..`Z` become `a`..`z`, other characters stay.
pub open spec fn ascii_lowercase(s: Seq<char>) -> Seq<char> {
    Seq::new(
        s.len(),
        |i: int|
            if 'A' <= s[i] <= 'Z' {
                ((s[i] as u32) + 32) as char
            } else {
                s[i]
            },
    )
}

/// The description of an action that carries a direction or an orientation
/// names the same one as the action itself (its `Debug` form), in lower case:
/// moving a window left is described as "Move window left", and so on.
pub proof fn lemma_labels_name_their_direction(d: Direction, f: FocusDirection, z: ResizeDirection, o: Orientation)
    ensures
        action_label(Action::Move(d)) == "Move window "@ + ascii_lowercase(direction_name(d)),
        action_label(Action::MoveToOutput(d)) == "Move window one monitor "@ + ascii_lowercase(
            direction_name(d),
        ),
        action_label(Action::SendToOutput(d)) == "Move window one monitor "@ + ascii_lowercase(
            direction_name(d),
        ),
        action_label(Action::SwitchOutput(d)) == "Switch to output "@ + ascii_lowercase(
            direction_name(d),
        ),
        action_label(Action::MigrateWorkspaceToOutput(d)) == "Migrate workspace "@
            + ascii_lowercase(direction_name(d)),
        action_label(Action::Focus(f)) == "Focus "@ + ascii_lowercase(focus_direction_name(f)),
        action_label(Action::Resizing(z)) == "Resize window "@ + ascii_lowercase(
            resize_direction_name(z),
        ),
        action_label(Action::Orientation(o)) == "Set "@ + ascii_lowercase(orientation_name(o))
            + " orientation"@,
{
    reveal_strlit("Left");
    reveal_strlit("Right");
    reveal_strlit("Up");
    reveal_strlit("Down");
    reveal_strlit("In");
    reveal_strlit("Out");
    reveal_strlit("Inwards");
    reveal_strlit("Outwards");
    reveal_strlit("Horizontal");
    reveal_strlit("Vertical");
    reveal_strlit("Move window ");
    reveal_strlit("Move window left");
    reveal_strlit("Move window right");
    reveal_strlit("Move window up");
    reveal_strlit("Move window down");
    reveal_strlit("Move window one monitor ");
    reveal_strlit("Move window one monitor left");
    reveal_strlit("Move window one monitor right");
    reveal_strlit("Move window one monitor up");
    reveal_strlit("Move window one monitor down");
    reveal_strlit("Switch to output ");
    reveal_strlit("Switch to output left");
    reveal_strlit("Switch to output right");
    reveal_strlit("Switch to output up");
    reveal_strlit("Switch to output down");
    reveal_strlit("Migrate workspace ");
    reveal_strlit("Migrate workspace left");
    reveal_strlit("Migrate workspace right");
    reveal_strlit("Migrate workspace up");
    reveal_strlit("Migrate workspace down");
    reveal_strlit("Focus ");
    reveal_strlit("Focus left");
    reveal_strlit("Focus right");
    reveal_strlit("Focus up");
    reveal_strlit("Focus down");
    reveal_strlit("Focus in");
    reveal_strlit("Focus out");
    reveal_strlit("Resize window ");
    reveal_strlit("Resize window inwards");
    reveal_strlit("Resize window outwards");
    reveal_strlit("Set ");
    reveal_strlit(" orientation");
    reveal_strlit("Set horizontal orientation");
    reveal_strlit("Set vertical orientation");
    let dl = ascii_lowercase(direction_name(d));
    assert(ascii_lowercase("Left"@) =~= seq!['l', 'e', 'f', 't']);
    assert(ascii_lowercase("Right"@) =~= seq!['r', 'i', 'g', 'h', 't']);
    assert(ascii_lowercase("Up"@) =~= seq!['u', 'p']);
    assert(ascii_lowercase("Down"@) =~= seq!['d', 'o', 'w', 'n']);
    assert(ascii_lowercase("In"@) =~= seq!['i', 'n']);
    assert(ascii_lowercase("Out"@) =~= seq!['o', 'u', 't']);
    assert(ascii_lowercase("Inwards"@) =~= seq!['i', 'n', 'w', 'a', 'r', 'd', 's']);
    assert(ascii_lowercase("Outwards"@) =~= seq!['o', 'u', 't', 'w', 'a', 'r', 'd', 's']);
    assert(ascii_lowercase("Horizontal"@) =~= seq!['h', 'o', 'r', 'i', 'z', 'o', 'n', 't', 'a', 'l']);
    assert(ascii_lowercase("Vertical"@) =~= seq!['v', 'e', 'r', 't', 'i', 'c', 'a', 'l']);
    match d {
        Direction::Left => {
            assert(action_label(Action::Move(d)) =~= "Move window "@ + dl);
            assert(action_label(Action::MoveToOutput(d)) =~= "Move window one monitor "@ + dl);
            assert(action_label(Action::SwitchOutput(d)) =~= "Switch to output "@ + dl);
            assert(action_label(Action::MigrateWorkspaceToOutput(d)) =~= "Migrate workspace "@ + dl);
        },
        Direction::Right => {
            assert(action_label(Action::Move(d)) =~= "Move window "@ + dl);
            assert(action_label(Action::MoveToOutput(d)) =~= "Move window one monitor "@ + dl);
            assert(action_label(Action::SwitchOutput(d)) =~= "Switch to output "@ + dl);
            assert(action_label(Action::MigrateWorkspaceToOutput(d)) =~= "Migrate workspace "@ + dl);
        },
        Direction::Up => {
            assert(action_label(Action::Move(d)) =~= "Move window "@ + dl);
            assert(action_label(Action::MoveToOutput(d)) =~= "Move window one monitor "@ + dl);
            assert(action_label(Action::SwitchOutput(d)) =~= "Switch to output "@ + dl);
            assert(action_label(Action::MigrateWorkspaceToOutput(d)) =~= "Migrate workspace "@ + dl);
        },
        Direction::Down => {
            assert(action_label(Action::Move(d)) =~= "Move window "@ + dl);
            assert(action_label(Action::MoveToOutput(d)) =~= "Move window one monitor "@ + dl);
            assert(action_label(Action::SwitchOutput(d)) =~= "Switch to output "@ + dl);
            assert(action_label(Action::MigrateWorkspaceToOutput(d)) =~= "Migrate workspace "@ + dl);
        },
    }
    let fl = ascii_lowercase(focus_direction_name(f));
    assert(action_label(Action::Focus(f)) =~= "Focus "@ + fl);
    let zl = ascii_lowercase(resize_direction_name(z));
    assert(action_label(Action::Resizing(z)) =~= "Resize window "@ + zl);
    let ol = ascii_lowercase(orientation_name(o));
    assert(action_label(Action::Orientation(o)) =~= "Set "@ + ol + " orientation"@);
}

} // verus!
