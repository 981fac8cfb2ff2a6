//! The theme editor: a hex field per colour, the font, the scale and the
//! corners, and presets. Every change takes effect at once and is saved.

use vstd::prelude::*;

use crate::color::Color;
use crate::text;
use crate::theme_config;
use crate::theme_config::{ThemeColor, ThemeConfig};

verus! {

/// What a colour of the theme is for.
#[derive(Debug, Clone, Copy, PartialEq, Eq, Hash, Structural)]
pub enum ColorRole {
    Background,
    Surface,
    SurfaceStrong,
    Text,
    MutedText,
    Accent,
    AccentText,
    Success,
    Danger,
}

/// The number of roles.
pub const ROLES: usize = 9;

impl ColorRole {
    /// The role's place in the list of roles.
    pub open spec fn place(self) -> int {
        match self {
            ColorRole::Background => 0,
            ColorRole::Surface => 1,
            ColorRole::SurfaceStrong => 2,
            ColorRole::Text => 3,
            ColorRole::MutedText => 4,
            ColorRole::Accent => 5,
            ColorRole::AccentText => 6,
            ColorRole::Success => 7,
            ColorRole::Danger => 8,
        }
    }

    /// The role at a place of the list.
    pub open spec fn at(i: int) -> ColorRole {
        if i == 0 {
            ColorRole::Background
        } else if i == 1 {
            ColorRole::Surface
        } else if i == 2 {
            ColorRole::SurfaceStrong
        } else if i == 3 {
            ColorRole::Text
        } else if i == 4 {
            ColorRole::MutedText
        } else if i == 5 {
            ColorRole::Accent
        } else if i == 6 {
            ColorRole::AccentText
        } else if i == 7 {
            ColorRole::Success
        } else {
            ColorRole::Danger
        }
    }

    /// The role's place in the list of roles.
    fn index(self) -> (r: usize)
        ensures
            r == self.place(),
            r < ROLES,
    {
        match self {
            ColorRole::Background => 0,
            ColorRole::Surface => 1,
            ColorRole::SurfaceStrong => 2,
            ColorRole::Text => 3,
            ColorRole::MutedText => 4,
            ColorRole::Accent => 5,
            ColorRole::AccentText => 6,
            ColorRole::Success => 7,
            ColorRole::Danger => 8,
        }
    }

    /// All roles, in the order of the editor.
    pub fn all() -> (r: Vec<ColorRole>)
        ensures
            r@.len() == ROLES,
            forall|i: int| 0 <= i < ROLES ==> #[trigger] r@[i] == ColorRole::at(i),
    {
        vec![
            ColorRole::Background,
            ColorRole::Surface,
            ColorRole::SurfaceStrong,
            ColorRole::Text,
            ColorRole::MutedText,
            ColorRole::Accent,
            ColorRole::AccentText,
            ColorRole::Success,
            ColorRole::Danger,
        ]
    }

    /// What the editor calls the role.
    pub open spec fn label_of(self) -> Seq<char> {
        match self {
            ColorRole::Background => "Background"@,
            ColorRole::Surface => "Surface (panels)"@,
            ColorRole::SurfaceStrong => "Surface (hover/selected)"@,
            ColorRole::Text => "Text"@,
            ColorRole::MutedText => "Muted text"@,
            ColorRole::Accent => "Accent"@,
            ColorRole::AccentText => "Text on accent"@,
            ColorRole::Success => "Success"@,
            ColorRole::Danger => "Danger"@,
        }
    }

    /// What the editor calls the role.
    pub fn label(self) -> (r: &'static str)
        ensures
            r@ == self.label_of(),
    {
        match self {
            ColorRole::Background => "Background",
            ColorRole::Surface => "Surface (panels)",
            ColorRole::SurfaceStrong => "Surface (hover/selected)",
            ColorRole::Text => "Text",
            ColorRole::MutedText => "Muted text",
            ColorRole::Accent => "Accent",
            ColorRole::AccentText => "Text on accent",
            ColorRole::Success => "Success",
            ColorRole::Danger => "Danger",
        }
    }

    /// A theme's colour for the role.
    pub open spec fn of(self, theme: ThemeConfig) -> ThemeColor {
        match self {
            ColorRole::Background => theme.background,
            ColorRole::Surface => theme.surface,
            ColorRole::SurfaceStrong => theme.surface_strong,
            ColorRole::Text => theme.text,
            ColorRole::MutedText => theme.muted_text,
            ColorRole::Accent => theme.accent,
            ColorRole::AccentText => theme.accent_text,
            ColorRole::Success => theme.success,
            ColorRole::Danger => theme.danger,
        }
    }

    /// A theme with another colour for the role.
    pub open spec fn with(self, theme: ThemeConfig, color: ThemeColor) -> ThemeConfig {
        match self {
            ColorRole::Background => ThemeConfig { background: color, ..theme },
            ColorRole::Surface => ThemeConfig { surface: color, ..theme },
            ColorRole::SurfaceStrong => ThemeConfig { surface_strong: color, ..theme },
            ColorRole::Text => ThemeConfig { text: color, ..theme },
            ColorRole::MutedText => ThemeConfig { muted_text: color, ..theme },
            ColorRole::Accent => ThemeConfig { accent: color, ..theme },
            ColorRole::AccentText => ThemeConfig { accent_text: color, ..theme },
            ColorRole::Success => ThemeConfig { success: color, ..theme },
            ColorRole::Danger => ThemeConfig { danger: color, ..theme },
        }
    }

    /// A theme's colour for the role.
    pub fn get(self, theme: &ThemeConfig) -> (r: ThemeColor)
        ensures
            r == self.of(*theme),
    {
        match self {
            ColorRole::Background => theme.background,
            ColorRole::Surface => theme.surface,
            ColorRole::SurfaceStrong => theme.surface_strong,
            ColorRole::Text => theme.text,
            ColorRole::MutedText => theme.muted_text,
            ColorRole::Accent => theme.accent,
            ColorRole::AccentText => theme.accent_text,
            ColorRole::Success => theme.success,
            ColorRole::Danger => theme.danger,
        }
    }

    /// Changes a theme's colour for the role, and nothing else.
    pub fn set(self, theme: &mut ThemeConfig, color: ThemeColor)
        ensures
            *final(theme) == self.with(*old(theme), color),
    {
        match self {
            ColorRole::Background => {
                theme.background = color;
            },
            ColorRole::Surface => {
                theme.surface = color;
            },
            ColorRole::SurfaceStrong => {
                theme.surface_strong = color;
            },
            ColorRole::Text => {
                theme.text = color;
            },
            ColorRole::MutedText => {
                theme.muted_text = color;
            },
            ColorRole::Accent => {
                theme.accent = color;
            },
            ColorRole::AccentText => {
                theme.accent_text = color;
            },
            ColorRole::Success => {
                theme.success = color;
            },
            ColorRole::Danger => {
                theme.danger = color;
            },
        }
    }
}

/// A theme to start from.
#[derive(Debug, Clone, Copy, PartialEq, Eq, Structural)]
pub enum Preset {
    ThornyChatDark,
    ThornyChatLight,
}

impl Preset {
    /// Whether this is the preset's theme.
    pub open spec fn is_theme(self, theme: ThemeConfig) -> bool {
        match self {
            Preset::ThornyChatDark => theme.is_dark_preset(),
            Preset::ThornyChatLight => theme.is_light_preset(),
        }
    }

    /// All presets, in the order of the editor.
    pub fn all() -> (r: Vec<Preset>)
        ensures
            r@ == seq![Preset::ThornyChatDark, Preset::ThornyChatLight],
    {
        vec![Preset::ThornyChatDark, Preset::ThornyChatLight]
    }

    /// The preset's theme.
    pub fn theme(self) -> (r: ThemeConfig)
        ensures
            self.is_theme(r),
    {
        match self {
            Preset::ThornyChatDark => ThemeConfig::thornychat_dark(),
            Preset::ThornyChatLight => ThemeConfig::thornychat_light(),
        }
    }

    /// What the editor calls the preset.
    pub open spec fn label_of(self) -> Seq<char> {
        match self {
            Preset::ThornyChatDark => "ThornyChat Dark"@,
            Preset::ThornyChatLight => "ThornyChat Light"@,
        }
    }

    /// What the editor calls the preset.
    pub fn label(self) -> (r: &'static str)
        ensures
            r@ == self.label_of(),
    {
        match self {
            Preset::ThornyChatDark => "ThornyChat Dark",
            Preset::ThornyChatLight => "ThornyChat Light",
        }
    }

    /// Whether the preset shows as chosen: by the theme's name.
    pub fn is_active(self, theme: &ThemeConfig) -> (r: bool)
        ensures
            r == (self.label_of() == theme.name@),
    {
        text::str_eq(self.label(), theme.name.as_str())
    }
}

/// The editor's fields.
#[derive(Debug)]
pub struct State {
    /// What stands in each hex field, in the order of the roles. Kept apart
    /// from the colours: a half-typed value stays as it was typed.
    pub hex_drafts: Vec<String>,
    pub font_family_draft: String,
    pub import_error: Option<String>,
}

impl State {
    /// A field for each role.
    pub open spec fn wf(&self) -> bool {
        self.hex_drafts@.len() == ROLES
    }

    /// Whether the fields show a theme.
    pub open spec fn shows(&self, theme: ThemeConfig) -> bool {
        &&& self.wf()
        &&& forall|i: int|
            0 <= i < ROLES ==> (#[trigger] self.hex_drafts@[i])@ == theme_config::hex_text(
                ColorRole::at(i).of(theme).0,
            )
        &&& self.font_family_draft@ == match theme.font_family {
            Some(s) => s@,
            None => Seq::empty(),
        }
        &&& self.import_error is None
    }

    /// The fields of a theme.
    pub fn synced_from(theme: &ThemeConfig) -> (r: Self)
        ensures
            r.shows(*theme),
    {
        let roles = ColorRole::all();
        let mut hex_drafts: Vec<String> = Vec::new();
        let mut i: usize = 0;
        while i < ROLES
            invariant
                i <= ROLES,
                roles@.len() == ROLES,
                forall|k: int| 0 <= k < ROLES ==> #[trigger] roles@[k] == ColorRole::at(k),
                hex_drafts@.len() == i,
                forall|k: int|
                    0 <= k < i ==> (#[trigger] hex_drafts@[k])@ == theme_config::hex_text(
                        ColorRole::at(k).of(*theme).0,
                    ),
            decreases ROLES - i,
        {
            hex_drafts.push(roles[i].get(theme).to_hex());
            i = i + 1;
        }
        State {
            hex_drafts,
            font_family_draft: match &theme.font_family {
                Some(s) => s.clone(),
                None => String::new(),
            },
            import_error: None,
        }
    }
}

/// What the editor reacts to.
#[derive(Debug)]
pub enum Message {
    HexChanged(ColorRole, String),
    PresetSelected(Preset),
    FontFamilyChanged(String),
    /// The bit pattern of an `f32`.
    UiScaleChanged(u32),
    /// The bit pattern of an `f32`.
    CornerRadiusChanged(u32),
    ImportClicked,
    /// A picked file was read.
    Imported(Result<ThemeConfig, String>),
    ExportClicked,
    /// A file was written, or none was picked.
    Saved,
}

/// What is to be done on disk.
#[derive(Debug)]
pub enum Task {
    Nothing,
    /// Save the theme.
    Save,
    /// Let the user pick a theme file, and read it.
    PickImport,
    /// Let the user pick where to write the theme.
    Export { suggested_name: String },
}

/// What a message makes of the fields, the theme and the disk.
pub open spec fn updated(
    s0: State,
    s: State,
    t0: ThemeConfig,
    t: ThemeConfig,
    message: Message,
    task: Task,
) -> bool {
    match message {
        Message::HexChanged(role, text) => {
            &&& s.hex_drafts@ == s0.hex_drafts@.update(role.place(), text)
            &&& s.font_family_draft == s0.font_family_draft
            &&& s.import_error == s0.import_error
            &&& match theme_config::parsed_hex(text@) {
                Some(c) => t == role.with(t0, ThemeColor(c)) && task is Save,
                None => t == t0 && task is Nothing,
            }
        },
        Message::PresetSelected(p) => p.is_theme(t) && s.shows(t) && task is Save,
        Message::FontFamilyChanged(text) => {
            let name = text::trimmed(text@);
            &&& s == (State { font_family_draft: text, ..s0 })
            &&& t == (ThemeConfig { font_family: t.font_family, ..t0 })
            &&& match t.font_family {
                Some(f) => name.len() > 0 && f@ == name,
                None => name.len() == 0,
            }
            &&& task is Save
        },
        Message::UiScaleChanged(v) => s == s0 && t == (ThemeConfig { ui_scale: v, ..t0 })
            && task is Save,
        Message::CornerRadiusChanged(v) => s == s0 && t == (ThemeConfig { corner_radius: v, ..t0 })
            && task is Save,
        Message::ImportClicked => s == (State { import_error: None, ..s0 }) && t == t0
            && task is PickImport,
        Message::Imported(Ok(imported)) => t == imported.held_in_range() && s.shows(t)
            && task is Save,
        Message::Imported(Err(reason)) => {
            &&& s == (State { import_error: s.import_error, ..s0 })
            &&& s.import_error matches Some(e) && e@ == "Couldn't import theme: "@ + reason@
            &&& t == t0
            &&& task is Nothing
        },
        Message::ExportClicked => s == s0 && t == t0 && (task matches Task::Export {
            suggested_name,
        } && suggested_name@ == theme_config::export_name(t0.name@)),
        Message::Saved => s == s0 && t == t0 && task is Nothing,
    }
}

/// Reacts to a message. A colour is taken over as soon as its field can be
/// read; an imported theme is held within range first.
pub fn update(state: &mut State, theme: &mut ThemeConfig, message: Message) -> (task: Task)
    requires
        old(state).wf(),
    ensures
        final(state).wf(),
        updated(*old(state), *final(state), *old(theme), *final(theme), message, task),
{
    match message {
        Message::HexChanged(role, text) => {
            let parsed = ThemeColor::parse_hex(text.as_str());
            state.hex_drafts.set(role.index(), text);
            match parsed {
                Some(color) => {
                    role.set(theme, color);
                    Task::Save
                },
                None => Task::Nothing,
            }
        },
        Message::PresetSelected(preset) => {
            *theme = preset.theme();
            *state = State::synced_from(theme);
            Task::Save
        },
        Message::FontFamilyChanged(text) => {
            let trimmed = text::trim(text.as_str());
            theme.font_family =
            if trimmed.unicode_len() == 0 {
                None
            } else {
                Some(trimmed.to_owned())
            };
            state.font_family_draft = text;
            Task::Save
        },
        Message::UiScaleChanged(value) => {
            theme.ui_scale = value;
            Task::Save
        },
        Message::CornerRadiusChanged(value) => {
            theme.corner_radius = value;
            Task::Save
        },
        Message::ImportClicked => {
            state.import_error = None;
            Task::PickImport
        },
        Message::Imported(Ok(imported)) => {
            *theme = imported.sanitized();
            *state = State::synced_from(theme);
            Task::Save
        },
        Message::Imported(Err(reason)) => {
            state.import_error =
            Some(text::join2("Couldn't import theme: ", reason.as_str()));
            Task::Nothing
        },
        Message::ExportClicked => Task::Export {
            suggested_name: theme_config::suggested_file_name(theme.name.as_str()),
        },
        Message::Saved => Task::Nothing,
    }
}

/// What a colour's row shows: whether its field can be read, and the colour
/// of the swatch, which is the theme's where it cannot.
pub fn color_row(role: ColorRole, state: &State, theme: &ThemeConfig) -> (r: (bool, Color))
    requires
        state.wf(),
    ensures
        r == match theme_config::parsed_hex(state.hex_drafts@[role.place()]@) {
            Some(c) => (true, c),
            None => (false, role.of(*theme).0),
        },
{
    match ThemeColor::parse_hex(state.hex_drafts[role.index()].as_str()) {
        Some(c) => (true, c.color()),
        None => (false, role.get(theme).color()),
    }
}

// ---------------------------------------------------------------------------
// Laws.
// ---------------------------------------------------------------------------
/// A colour that is set for a role is what the role then has, and no other
/// role changes.
pub proof fn law_roles_are_independent(
    role: ColorRole,
    other: ColorRole,
    theme: ThemeConfig,
    color: ThemeColor,
)
    ensures
        role.of(role.with(theme, color)) == color,
        other != role ==> other.of(role.with(theme, color)) == other.of(theme),
{
}

/// Each role stands at its own place of the list.
pub proof fn law_roles_have_their_places(role: ColorRole, i: int)
    requires
        0 <= i < ROLES,
    ensures
        0 <= role.place() < ROLES,
        ColorRole::at(role.place()) == role,
        ColorRole::at(i).place() == i,
{
}

/// The fields of a theme read back as its colours: right after a preset or an
/// import, every swatch shows the theme's own colour.
pub proof fn law_synced_fields_are_valid(state: State, theme: ThemeConfig, role: ColorRole)
    requires
        state.shows(theme),
    ensures
        theme_config::parsed_hex(state.hex_drafts@[role.place()]@) == Some(role.of(theme).0),
{
    law_roles_have_their_places(role, 0);
    theme_config::law_hex_reads_back(role.of(theme).0);
    assert(state.hex_drafts@[role.place()]@ == theme_config::hex_text(
        ColorRole::at(role.place()).of(theme).0,
    ));
}

/// A colour that is typed goes to its own role as soon as it can be read, is
/// saved, and leaves every other part of the theme as it was; what cannot be
/// read changes no theme, and either stays in its field as it was typed.
pub proof fn law_a_typed_colour_goes_to_its_role(
    s0: State,
    s: State,
    t0: ThemeConfig,
    t: ThemeConfig,
    role: ColorRole,
    other: ColorRole,
    typed: String,
    task: Task,
)
    requires
        s0.wf(),
        updated(s0, s, t0, t, Message::HexChanged(role, typed), task),
        other != role,
    ensures
        theme_config::parsed_hex(typed@) matches Some(c) ==> role.of(t).0 == c && task is Save,
        theme_config::parsed_hex(typed@) is None ==> t == t0 && task is Nothing,
        other.of(t) == other.of(t0),
        t.font_family == t0.font_family && t.ui_scale == t0.ui_scale && t.corner_radius
            == t0.corner_radius && t.name == t0.name,
        s.hex_drafts@[role.place()]@ == typed@,
        s.hex_drafts@[other.place()] == s0.hex_drafts@[other.place()],
{
    law_roles_have_their_places(role, 0);
    law_roles_have_their_places(other, 0);
}

/// The other fields set what they are called, and are saved: the font family
/// without the white space around it, none where it is blank; the scale; the
/// corners. What was imported is shown and saved, and a file that could not be
/// read changes nothing but what is said of it.
pub proof fn law_the_other_fields_of_a_theme(
    s0: State,
    s: State,
    t0: ThemeConfig,
    t: ThemeConfig,
    message: Message,
    task: Task,
)
    requires
        updated(s0, s, t0, t, message, task),
    ensures
        message matches Message::FontFamilyChanged(f) ==> (t.font_family is Some) == (text::trimmed(
            f@,
        ).len() > 0) && (t.font_family is Some ==> t.font_family->0@ == text::trimmed(f@)) && task
            is Save && s.font_family_draft@ == f@,
        message matches Message::UiScaleChanged(v) ==> t.ui_scale == v && task is Save
            && t.corner_radius == t0.corner_radius && t.font_family == t0.font_family,
        message matches Message::CornerRadiusChanged(v) ==> t.corner_radius == v && task is Save
            && t.ui_scale == t0.ui_scale && t.font_family == t0.font_family,
        message matches Message::PresetSelected(p) ==> task is Save && s.shows(t),
        message == Message::PresetSelected(Preset::ThornyChatDark) ==> t.is_dark_preset(),
        message == Message::PresetSelected(Preset::ThornyChatLight) ==> t.is_light_preset(),
        message matches Message::Imported(Ok(x)) ==> task is Save && s.shows(t) && t.background
            == x.background && t.text == x.text && t.accent == x.accent,
        message matches Message::Imported(Err(why)) ==> t == t0 && s.import_error is Some
            && s.import_error->0@ == "Couldn't import theme: "@ + why@,
        message is ImportClicked ==> t == t0 && task is PickImport && s.import_error is None,
        message is ExportClicked ==> t == t0 && task is Export && task->suggested_name@
            == theme_config::export_name(t0.name@),
{
}

} // verus!
