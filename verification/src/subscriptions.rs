//! What the application listens to, and when. Whatever is not needed is not
//! listened to.

use vstd::prelude::*;

use crate::screens::settings::connectors::ConnectorsConfig;
use crate::screens::timeline::Point;
use crate::state::App;

verus! {

/// What is listened to besides the window and the system's power events, which
/// always are.
#[derive(Debug)]
pub struct Listening {
    /// The sync worker of this profile.
    pub client: Option<String>,
    /// The drag of the settings panel's grip.
    pub settings_resize: bool,
    /// The timer that drives autoscroll, and what ends it.
    pub autoscroll: bool,
    /// Clicks beside the video, which hand the keyboard back.
    pub video_focus: bool,
    /// The launchers, every so many seconds.
    pub connectors: Option<u64>,
    /// The pointer.
    pub cursor: bool,
    /// The timer that brings a lost window back.
    pub ensure_window: bool,
}

/// How often the launchers are asked: never where none is watched, and never
/// more often than every `at_least` seconds.
pub open spec fn poll_interval(c: ConnectorsConfig, at_least: u64) -> Option<u64> {
    if !c.some_enabled() {
        None
    } else if c.poll_interval_secs < at_least {
        Some(at_least)
    } else {
        Some(c.poll_interval_secs)
    }
}

/// Whether this is what is listened to.
pub open spec fn is_listening(
    l: Listening,
    app: App,
    connectors: ConnectorsConfig,
    at_least: u64,
    focused: bool,
    has_window: bool,
) -> bool {
    &&& l.client == if app.signed_in {
        Some(app.profile)
    } else {
        None
    }
    &&& l.settings_resize == (app.settings_resize_drag is Some)
    &&& l.autoscroll == (app.timeline.autoscroll is Some)
    &&& l.video_focus == (app.timeline.inline_video is Some)
    &&& l.connectors == poll_interval(connectors, at_least)
    &&& l.cursor == focused
    &&& l.ensure_window == !has_window
}

/// What is listened to. The pointer is followed only while the window has the
/// focus: every move would redraw a window that no click is coming to.
pub fn subscription(
    app: &App,
    connectors: &ConnectorsConfig,
    at_least: u64,
    focused: bool,
    has_window: bool,
) -> (r: Listening)
    ensures
        is_listening(r, *app, *connectors, at_least, focused, has_window),
{
    let interval: Option<u64> = if !connectors.any_enabled() {
        None
    } else if connectors.poll_interval_secs < at_least {
        Some(at_least)
    } else {
        Some(connectors.poll_interval_secs)
    };
    Listening {
        client: if app.signed_in {
            Some(app.profile.clone())
        } else {
            None
        },
        settings_resize: app.settings_resize_drag.is_some(),
        autoscroll: app.timeline.autoscroll.is_some(),
        video_focus: app.timeline.inline_video.is_some(),
        connectors: interval,
        cursor: focused,
        ensure_window: !has_window,
    }
}

/// A mouse button.
#[derive(Debug, Clone, Copy, PartialEq, Eq, Structural)]
pub enum Button {
    Left,
    Right,
    Middle,
    Other,
}

/// A key.
#[derive(Debug)]
pub enum Key {
    Escape,
    Character(String),
    Other,
}

/// What the window reports.
#[derive(Debug)]
pub enum InputEvent {
    CursorMoved(Point),
    ButtonPressed(Button),
    ButtonReleased(Button),
    WheelScrolled,
    KeyPressed { key: Key, command: bool, alt: bool },
    Resized,
    Moved(Point),
    Focused,
    Unfocused,
    FileDropped(String),
    Other,
}

/// What an event comes to.
#[derive(Debug)]
pub enum Signal {
    CursorMoved(Point),
    ReclaimAppFocus,
    AutoscrollEnd,
    WindowResized,
    WindowMoved(Point),
    WindowFocusChanged(bool),
    FileDropped(String),
    EscapePressed,
    PasteClipboard,
    SettingsResizeDragged(Point),
    SettingsResizeReleased,
}

/// What the pointer's listener makes of an event.
pub fn cursor_events(event: &InputEvent) -> (r: Option<Signal>)
    ensures
        r == match *event {
            InputEvent::CursorMoved(p) => Some(Signal::CursorMoved(p)),
            _ => None,
        },
{
    match event {
        InputEvent::CursorMoved(p) => Some(Signal::CursorMoved(*p)),
        _ => None,
    }
}

/// What the video's listener makes of an event: a press that arrives landed
/// beside the video.
pub fn video_focus_events(event: &InputEvent) -> (r: Option<Signal>)
    ensures
        r == match *event {
            InputEvent::ButtonPressed(_) => Some(Signal::ReclaimAppFocus),
            _ => None,
        },
{
    match event {
        InputEvent::ButtonPressed(_) => Some(Signal::ReclaimAppFocus),
        _ => None,
    }
}

/// What ends autoscroll: a click, a turn of the wheel, a key. The middle
/// button does not: it toggles autoscroll itself, and the two would race.
pub open spec fn ends_autoscroll(event: InputEvent) -> bool {
    match event {
        InputEvent::ButtonPressed(b) => b != Button::Middle,
        InputEvent::WheelScrolled => true,
        InputEvent::KeyPressed { .. } => true,
        _ => false,
    }
}

/// What autoscroll's listener makes of an event.
pub fn autoscroll_cancel_events(event: &InputEvent) -> (r: Option<Signal>)
    ensures
        r == if ends_autoscroll(*event) {
            Some(Signal::AutoscrollEnd)
        } else {
            None
        },
{
    let ends = match event {
        InputEvent::ButtonPressed(b) => *b != Button::Middle,
        InputEvent::WheelScrolled => true,
        InputEvent::KeyPressed { .. } => true,
        _ => false,
    };
    if ends {
        Some(Signal::AutoscrollEnd)
    } else {
        None
    }
}

/// Whether a key is the one that pastes, of either case.
pub open spec fn is_v(s: Seq<char>) -> bool {
    s.len() == 1 && (s[0] == 'v' || s[0] == 'V')
}

/// What the window's listener makes of a key: with the command key a `v`
/// pastes, unless the alternate key is down too, which types a character.
pub open spec fn key_signal(key: Key, command: bool, alt: bool) -> Option<Signal> {
    match key {
        Key::Escape => Some(Signal::EscapePressed),
        Key::Character(c) => if command && !alt && is_v(c@) {
            Some(Signal::PasteClipboard)
        } else {
            None
        },
        Key::Other => None,
    }
}

/// What the window's listener makes of an event.
pub open spec fn window_signal(event: InputEvent) -> Option<Signal> {
    match event {
        InputEvent::Resized => Some(Signal::WindowResized),
        InputEvent::Moved(p) => Some(Signal::WindowMoved(p)),
        InputEvent::Focused => Some(Signal::WindowFocusChanged(true)),
        InputEvent::Unfocused => Some(Signal::WindowFocusChanged(false)),
        InputEvent::FileDropped(path) => Some(Signal::FileDropped(path)),
        InputEvent::KeyPressed { key, command, alt } => key_signal(key, command, alt),
        _ => None,
    }
}

/// What the window's listener makes of an event.
pub fn window_events(event: &InputEvent) -> (r: Option<Signal>)
    ensures
        r == window_signal(*event),
{
    match event {
        InputEvent::Resized => Some(Signal::WindowResized),
        InputEvent::Moved(p) => Some(Signal::WindowMoved(*p)),
        InputEvent::Focused => Some(Signal::WindowFocusChanged(true)),
        InputEvent::Unfocused => Some(Signal::WindowFocusChanged(false)),
        InputEvent::FileDropped(path) => Some(Signal::FileDropped(path.clone())),
        InputEvent::KeyPressed { key, command, alt } => match key {
            Key::Escape => Some(Signal::EscapePressed),
            Key::Character(c) => {
                let s = c.as_str();
                let v = s.unicode_len() == 1 && (s.get_char(0) == 'v' || s.get_char(0) == 'V');
                if *command && !*alt && v {
                    Some(Signal::PasteClipboard)
                } else {
                    None
                }
            },
            Key::Other => None,
        },
        _ => None,
    }
}

/// What the listener of a drag of the settings panel makes of an event.
pub fn settings_resize_events(event: &InputEvent) -> (r: Option<Signal>)
    ensures
        r == match *event {
            InputEvent::CursorMoved(p) => Some(Signal::SettingsResizeDragged(p)),
            InputEvent::ButtonReleased(b) => if b == Button::Left {
                Some(Signal::SettingsResizeReleased)
            } else {
                None
            },
            _ => None,
        },
{
    match event {
        InputEvent::CursorMoved(p) => Some(Signal::SettingsResizeDragged(*p)),
        InputEvent::ButtonReleased(b) => if *b == Button::Left {
            Some(Signal::SettingsResizeReleased)
        } else {
            None
        },
        _ => None,
    }
}

/// An application at rest listens to nothing that costs: no timer runs, and
/// no pointer is followed, while nothing is playing, dragged or watched, and
/// the window is there without the focus.
pub proof fn law_rest_costs_nothing(
    l: Listening,
    app: App,
    connectors: ConnectorsConfig,
    at_least: u64,
)
    requires
        is_listening(l, app, connectors, at_least, false, true),
        app.settings_resize_drag is None,
        app.timeline.autoscroll is None,
        app.timeline.inline_video is None,
        !connectors.some_enabled(),
    ensures
        !l.settings_resize && !l.autoscroll && !l.video_focus && !l.cursor && !l.ensure_window,
        l.connectors is None,
{
}

/// The command key and `v`, in either case, paste, unless the alternate key is
/// down too; no other key does. What the window reports is handed on as what
/// it is.
pub proof fn law_what_the_window_reports(event: InputEvent)
    ensures
        (window_signal(event) is Some && window_signal(event)->0 is PasteClipboard) == (
        event matches InputEvent::KeyPressed { key, command, alt } && command && !alt
            && (key matches Key::Character(c) && (c@ == seq!['v'] || c@ == seq!['V']))),
        (window_signal(event) is Some && window_signal(event)->0 is EscapePressed) == (
        event matches InputEvent::KeyPressed { key, command, alt } && key is Escape),
        event is Resized ==> window_signal(event) == Some(Signal::WindowResized),
        event matches InputEvent::Moved(p) ==> window_signal(event) == Some(Signal::WindowMoved(p)),
        event is Focused ==> window_signal(event) == Some(Signal::WindowFocusChanged(true)),
        event is Unfocused ==> window_signal(event) == Some(Signal::WindowFocusChanged(false)),
        event matches InputEvent::FileDropped(path) ==> window_signal(event) == Some(
            Signal::FileDropped(path),
        ),
        ends_autoscroll(event) == (event is KeyPressed || event is WheelScrolled || (
        event matches InputEvent::ButtonPressed(b) && !(b is Middle))),
{
    if let InputEvent::KeyPressed { key, command, alt } = event {
        if let Key::Character(c) = key {
            if c@.len() == 1 {
                if c@[0] == 'v' {
                    assert(c@ =~= seq!['v']);
                }
                if c@[0] == 'V' {
                    assert(c@ =~= seq!['V']);
                }
            }
        }
    }
}

/// Each listener runs exactly while there is something for it to hear; the
/// launchers are looked at no more often than they may be.
pub proof fn law_what_is_listened_to(
    l: Listening,
    app: App,
    c: ConnectorsConfig,
    at_least: u64,
    focused: bool,
    has_window: bool,
)
    requires
        is_listening(l, app, c, at_least, focused, has_window),
    ensures
        app.signed_in ==> l.client == Some(app.profile),
        !app.signed_in ==> l.client is None,
        l.autoscroll == app.timeline.autoscroll is Some,
        l.video_focus == app.timeline.inline_video is Some,
        l.settings_resize == app.settings_resize_drag is Some,
        l.cursor == focused,
        (l.connectors is Some) == (c.steam_enabled || c.gog_enabled || c.epic_enabled),
        l.connectors matches Some(n) ==> n >= at_least && n >= c.poll_interval_secs && (n == at_least
            || n == c.poll_interval_secs),
{
}

} // verus!
