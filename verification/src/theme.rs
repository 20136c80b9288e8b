//! Colour themes.
use vstd::prelude::*;
use vstd::string::*;

use crate::text::{find_char, lemma_find_char, lemma_find_char_skip, position_of_char, same_text, slice_text, to_chars};

verus! {

/// A colour theme.
#[derive(Clone, Copy, Debug, PartialEq, Eq, PartialOrd, Ord, Hash, Structural)]
pub enum ThemeId {
    TokyoNightStorm,
    CatppuccinMacchiato,
    KanagawaDragon,
    Nord,
    GruvboxMaterialDark,
    SunsetEmber,
    TerracottaDawn,
    OrchidDusk,
    RoseQuartz,
    HighContrastDark,
    HighContrastLight,
    GithubLight,
}

impl DeepView for ThemeId {
    type V = ThemeId;

    open spec fn deep_view(&self) -> ThemeId {
        *self
    }
}

/// The colours of a theme.
#[derive(Clone, Copy, Debug, PartialEq, Eq)]
pub struct ThemePalette {
    pub id: ThemeId,
    pub label: &'static str,
    pub background: &'static str,
    pub surface: &'static str,
    pub surface_alt: &'static str,
    pub text: &'static str,
    pub muted: &'static str,
    pub accent: &'static str,
    pub mention: &'static str,
    pub unread: &'static str,
}

/// What a [`ThemePalette`] says: its texts as sequences of characters.
#[verifier::ext_equal]
pub struct ThemePaletteModel {
    pub id: ThemeId,
    pub label: Seq<char>,
    pub background: Seq<char>,
    pub surface: Seq<char>,
    pub surface_alt: Seq<char>,
    pub text: Seq<char>,
    pub muted: Seq<char>,
    pub accent: Seq<char>,
    pub mention: Seq<char>,
    pub unread: Seq<char>,
}

impl DeepView for ThemePalette {
    type V = ThemePaletteModel;

    open spec fn deep_view(&self) -> ThemePaletteModel {
        ThemePaletteModel {
            id: self.id,
            label: self.label@,
            background: self.background@,
            surface: self.surface@,
            surface_alt: self.surface_alt@,
            text: self.text@,
            muted: self.muted@,
            accent: self.accent@,
            mention: self.mention@,
            unread: self.unread@,
        }
    }
}

/// All themes, in order.
pub open spec fn all_themes() -> Seq<ThemeId> {
    seq![
        ThemeId::TokyoNightStorm,
        ThemeId::CatppuccinMacchiato,
        ThemeId::KanagawaDragon,
        ThemeId::Nord,
        ThemeId::GruvboxMaterialDark,
        ThemeId::SunsetEmber,
        ThemeId::TerracottaDawn,
        ThemeId::OrchidDusk,
        ThemeId::RoseQuartz,
        ThemeId::HighContrastDark,
        ThemeId::HighContrastLight,
        ThemeId::GithubLight,
    ]
}

impl ThemeId {
    /// All themes, in order.
    pub const ALL: [ThemeId; 12] = [
        ThemeId::TokyoNightStorm,
        ThemeId::CatppuccinMacchiato,
        ThemeId::KanagawaDragon,
        ThemeId::Nord,
        ThemeId::GruvboxMaterialDark,
        ThemeId::SunsetEmber,
        ThemeId::TerracottaDawn,
        ThemeId::OrchidDusk,
        ThemeId::RoseQuartz,
        ThemeId::HighContrastDark,
        ThemeId::HighContrastLight,
        ThemeId::GithubLight,
    ];

    /// The name of a theme in settings.
    pub open spec fn name(self) -> Seq<char> {
        match self {
            ThemeId::TokyoNightStorm => "tokyo-night-storm"@,
            ThemeId::CatppuccinMacchiato => "catppuccin-macchiato"@,
            ThemeId::KanagawaDragon => "kanagawa-dragon"@,
            ThemeId::Nord => "nord"@,
            ThemeId::GruvboxMaterialDark => "gruvbox-material-dark"@,
            ThemeId::SunsetEmber => "sunset-ember"@,
            ThemeId::TerracottaDawn => "terracotta-dawn"@,
            ThemeId::OrchidDusk => "orchid-dusk"@,
            ThemeId::RoseQuartz => "rose-quartz"@,
            ThemeId::HighContrastDark => "high-contrast-dark"@,
            ThemeId::HighContrastLight => "high-contrast-light"@,
            ThemeId::GithubLight => "github-light"@,
        }
    }

    /// The name of a theme for users.
    pub open spec fn title(self) -> Seq<char> {
        match self {
            ThemeId::TokyoNightStorm => "Tokyo Night Storm"@,
            ThemeId::CatppuccinMacchiato => "Catppuccin Macchiato"@,
            ThemeId::KanagawaDragon => "Kanagawa Dragon"@,
            ThemeId::Nord => "Nord"@,
            ThemeId::GruvboxMaterialDark => "Gruvbox Material Dark"@,
            ThemeId::SunsetEmber => "Sunset Ember"@,
            ThemeId::TerracottaDawn => "Terracotta Dawn"@,
            ThemeId::OrchidDusk => "Orchid Dusk"@,
            ThemeId::RoseQuartz => "Rose Quartz"@,
            ThemeId::HighContrastDark => "High Contrast Dark"@,
            ThemeId::HighContrastLight => "High Contrast Light"@,
            ThemeId::GithubLight => "GitHub Light"@,
        }
    }

    /// The colours of a theme.
    pub open spec fn colours(self) -> ThemePaletteModel {
        match self {
            ThemeId::TokyoNightStorm => ThemePaletteModel {
                id: self,
                label: self.title(),
                background: "#16161e"@,
                surface: "#1f2335"@,
                surface_alt: "#24283b"@,
                text: "#c0caf5"@,
                muted: "#7a88cf"@,
                accent: "#7aa2f7"@,
                mention: "#ff9e64"@,
                unread: "#9ece6a"@,
            },
            ThemeId::CatppuccinMacchiato => ThemePaletteModel {
                id: self,
                label: self.title(),
                background: "#24273a"@,
                surface: "#1e2030"@,
                surface_alt: "#363a4f"@,
                text: "#cad3f5"@,
                muted: "#8087a2"@,
                accent: "#8aadf4"@,
                mention: "#f5a97f"@,
                unread: "#a6da95"@,
            },
            ThemeId::KanagawaDragon => ThemePaletteModel {
                id: self,
                label: self.title(),
                background: "#181616"@,
                surface: "#1d1c19"@,
                surface_alt: "#2d4f67"@,
                text: "#c5c9c5"@,
                muted: "#8a9a7b"@,
                accent: "#8ba4b0"@,
                mention: "#c4746e"@,
                unread: "#87a987"@,
            },
            ThemeId::Nord => ThemePaletteModel {
                id: self,
                label: self.title(),
                background: "#2e3440"@,
                surface: "#3b4252"@,
                surface_alt: "#434c5e"@,
                text: "#eceff4"@,
                muted: "#81a1c1"@,
                accent: "#88c0d0"@,
                mention: "#d08770"@,
                unread: "#a3be8c"@,
            },
            ThemeId::GruvboxMaterialDark => ThemePaletteModel {
                id: self,
                label: self.title(),
                background: "#282828"@,
                surface: "#32302f"@,
                surface_alt: "#3c3836"@,
                text: "#d4be98"@,
                muted: "#a89984"@,
                accent: "#7daea3"@,
                mention: "#e78a4e"@,
                unread: "#a9b665"@,
            },
            ThemeId::SunsetEmber => ThemePaletteModel {
                id: self,
                label: self.title(),
                background: "#1f1411"@,
                surface: "#2b1d19"@,
                surface_alt: "#3a2822"@,
                text: "#f6ddc7"@,
                muted: "#d0a885"@,
                accent: "#ff9b54"@,
                mention: "#ff6f7d"@,
                unread: "#c8e26a"@,
            },
            ThemeId::TerracottaDawn => ThemePaletteModel {
                id: self,
                label: self.title(),
                background: "#fff3e8"@,
                surface: "#fffaf5"@,
                surface_alt: "#f4e3d5"@,
                text: "#4a3128"@,
                muted: "#9b6f5d"@,
                accent: "#c96b3b"@,
                mention: "#b42318"@,
                unread: "#317d4a"@,
            },
            ThemeId::OrchidDusk => ThemePaletteModel {
                id: self,
                label: self.title(),
                background: "#16131f"@,
                surface: "#221c30"@,
                surface_alt: "#2f2742"@,
                text: "#efe8ff"@,
                muted: "#aa9bcf"@,
                accent: "#b38cff"@,
                mention: "#ff96d8"@,
                unread: "#7fe6b1"@,
            },
            ThemeId::RoseQuartz => ThemePaletteModel {
                id: self,
                label: self.title(),
                background: "#fff1f6"@,
                surface: "#ffffff"@,
                surface_alt: "#f5dce6"@,
                text: "#492534"@,
                muted: "#9d6b7d"@,
                accent: "#d9487f"@,
                mention: "#9c2f5d"@,
                unread: "#2f7d57"@,
            },
            ThemeId::HighContrastDark => ThemePaletteModel {
                id: self,
                label: self.title(),
                background: "#000000"@,
                surface: "#111111"@,
                surface_alt: "#1b1b1b"@,
                text: "#ffffff"@,
                muted: "#d0d0d0"@,
                accent: "#00e5ff"@,
                mention: "#ff5c5c"@,
                unread: "#b8ff00"@,
            },
            ThemeId::HighContrastLight => ThemePaletteModel {
                id: self,
                label: self.title(),
                background: "#ffffff"@,
                surface: "#f2f2f2"@,
                surface_alt: "#e4e4e4"@,
                text: "#111111"@,
                muted: "#303030"@,
                accent: "#0047ff"@,
                mention: "#c21807"@,
                unread: "#006b2e"@,
            },
            ThemeId::GithubLight => ThemePaletteModel {
                id: self,
                label: self.title(),
                background: "#f6f8fa"@,
                surface: "#ffffff"@,
                surface_alt: "#eaedf0"@,
                text: "#24292f"@,
                muted: "#57606a"@,
                accent: "#0969da"@,
                mention: "#bc4c00"@,
                unread: "#1a7f37"@,
            },
        }
    }

    /// The name of the theme in settings.
    pub fn slug(self) -> (r: &'static str)
        ensures
            r@ == self.name(),
    {
        match self {
            ThemeId::TokyoNightStorm => "tokyo-night-storm",
            ThemeId::CatppuccinMacchiato => "catppuccin-macchiato",
            ThemeId::KanagawaDragon => "kanagawa-dragon",
            ThemeId::Nord => "nord",
            ThemeId::GruvboxMaterialDark => "gruvbox-material-dark",
            ThemeId::SunsetEmber => "sunset-ember",
            ThemeId::TerracottaDawn => "terracotta-dawn",
            ThemeId::OrchidDusk => "orchid-dusk",
            ThemeId::RoseQuartz => "rose-quartz",
            ThemeId::HighContrastDark => "high-contrast-dark",
            ThemeId::HighContrastLight => "high-contrast-light",
            ThemeId::GithubLight => "github-light",
        }
    }

    /// The name of the theme for users.
    pub fn label(self) -> (r: &'static str)
        ensures
            r@ == self.title(),
    {
        match self {
            ThemeId::TokyoNightStorm => "Tokyo Night Storm",
            ThemeId::CatppuccinMacchiato => "Catppuccin Macchiato",
            ThemeId::KanagawaDragon => "Kanagawa Dragon",
            ThemeId::Nord => "Nord",
            ThemeId::GruvboxMaterialDark => "Gruvbox Material Dark",
            ThemeId::SunsetEmber => "Sunset Ember",
            ThemeId::TerracottaDawn => "Terracotta Dawn",
            ThemeId::OrchidDusk => "Orchid Dusk",
            ThemeId::RoseQuartz => "Rose Quartz",
            ThemeId::HighContrastDark => "High Contrast Dark",
            ThemeId::HighContrastLight => "High Contrast Light",
            ThemeId::GithubLight => "GitHub Light",
        }
    }

    /// The theme that has the name in settings.
    pub fn from_slug(slug: &str) -> (r: Option<ThemeId>)
        ensures
            r matches Some(theme) ==> theme.name() == slug@,
            forall|theme: ThemeId| (#[trigger] theme.name()) == slug@ ==> r == Some(theme),
    {
        let mut i: usize = 0;
        while i < 12
            invariant
                i <= 12,
                forall|k: int| 0 <= k < i ==> (#[trigger] ThemeId::ALL[k]).name() != slug@,
            decreases 12 - i,
        {
            let theme = ThemeId::ALL[i];
            if same_text(theme.slug(), slug) {
                assert forall|other: ThemeId| (#[trigger] other.name()) == slug@ implies Some(theme)
                    == Some(other) by {
                    law_slugs_name_one_theme(theme, other);
                }
                return Some(theme);
            }
            i += 1;
        }
        assert forall|theme: ThemeId| (#[trigger] theme.name()) != slug@ by {
            lemma_all_themes(theme);
        }
        None
    }

    /// The colours of the theme.
    pub fn palette(self) -> (r: ThemePalette)
        ensures
            r.deep_view() == self.colours(),
    {
        match self {
            ThemeId::TokyoNightStorm => ThemePalette {
                id: self,
                label: self.label(),
                background: "#16161e",
                surface: "#1f2335",
                surface_alt: "#24283b",
                text: "#c0caf5",
                muted: "#7a88cf",
                accent: "#7aa2f7",
                mention: "#ff9e64",
                unread: "#9ece6a",
            },
            ThemeId::CatppuccinMacchiato => ThemePalette {
                id: self,
                label: self.label(),
                background: "#24273a",
                surface: "#1e2030",
                surface_alt: "#363a4f",
                text: "#cad3f5",
                muted: "#8087a2",
                accent: "#8aadf4",
                mention: "#f5a97f",
                unread: "#a6da95",
            },
            ThemeId::KanagawaDragon => ThemePalette {
                id: self,
                label: self.label(),
                background: "#181616",
                surface: "#1d1c19",
                surface_alt: "#2d4f67",
                text: "#c5c9c5",
                muted: "#8a9a7b",
                accent: "#8ba4b0",
                mention: "#c4746e",
                unread: "#87a987",
            },
            ThemeId::Nord => ThemePalette {
                id: self,
                label: self.label(),
                background: "#2e3440",
                surface: "#3b4252",
                surface_alt: "#434c5e",
                text: "#eceff4",
                muted: "#81a1c1",
                accent: "#88c0d0",
                mention: "#d08770",
                unread: "#a3be8c",
            },
            ThemeId::GruvboxMaterialDark => ThemePalette {
                id: self,
                label: self.label(),
                background: "#282828",
                surface: "#32302f",
                surface_alt: "#3c3836",
                text: "#d4be98",
                muted: "#a89984",
                accent: "#7daea3",
                mention: "#e78a4e",
                unread: "#a9b665",
            },
            ThemeId::SunsetEmber => ThemePalette {
                id: self,
                label: self.label(),
                background: "#1f1411",
                surface: "#2b1d19",
                surface_alt: "#3a2822",
                text: "#f6ddc7",
                muted: "#d0a885",
                accent: "#ff9b54",
                mention: "#ff6f7d",
                unread: "#c8e26a",
            },
            ThemeId::TerracottaDawn => ThemePalette {
                id: self,
                label: self.label(),
                background: "#fff3e8",
                surface: "#fffaf5",
                surface_alt: "#f4e3d5",
                text: "#4a3128",
                muted: "#9b6f5d",
                accent: "#c96b3b",
                mention: "#b42318",
                unread: "#317d4a",
            },
            ThemeId::OrchidDusk => ThemePalette {
                id: self,
                label: self.label(),
                background: "#16131f",
                surface: "#221c30",
                surface_alt: "#2f2742",
                text: "#efe8ff",
                muted: "#aa9bcf",
                accent: "#b38cff",
                mention: "#ff96d8",
                unread: "#7fe6b1",
            },
            ThemeId::RoseQuartz => ThemePalette {
                id: self,
                label: self.label(),
                background: "#fff1f6",
                surface: "#ffffff",
                surface_alt: "#f5dce6",
                text: "#492534",
                muted: "#9d6b7d",
                accent: "#d9487f",
                mention: "#9c2f5d",
                unread: "#2f7d57",
            },
            ThemeId::HighContrastDark => ThemePalette {
                id: self,
                label: self.label(),
                background: "#000000",
                surface: "#111111",
                surface_alt: "#1b1b1b",
                text: "#ffffff",
                muted: "#d0d0d0",
                accent: "#00e5ff",
                mention: "#ff5c5c",
                unread: "#b8ff00",
            },
            ThemeId::HighContrastLight => ThemePalette {
                id: self,
                label: self.label(),
                background: "#ffffff",
                surface: "#f2f2f2",
                surface_alt: "#e4e4e4",
                text: "#111111",
                muted: "#303030",
                accent: "#0047ff",
                mention: "#c21807",
                unread: "#006b2e",
            },
            ThemeId::GithubLight => ThemePalette {
                id: self,
                label: self.label(),
                background: "#f6f8fa",
                surface: "#ffffff",
                surface_alt: "#eaedf0",
                text: "#24292f",
                muted: "#57606a",
                accent: "#0969da",
                mention: "#bc4c00",
                unread: "#1a7f37",
            },
        }
    }

    /// The style sheet of the theme.
    pub fn css(self) -> (r: String)
        ensures
            r@ == filled(CSS_TEMPLATE@, self.colours()),
    {
        fill_template(CSS_TEMPLATE, &self.palette())
    }
}

/// The colour that a name in the template stands for; an unknown name stands for nothing.
pub open spec fn colour(palette: ThemePaletteModel, name: Seq<char>) -> Seq<char> {
    if name == "background"@ {
        palette.background
    } else if name == "surface"@ {
        palette.surface
    } else if name == "surface_alt"@ {
        palette.surface_alt
    } else if name == "text"@ {
        palette.text
    } else if name == "muted"@ {
        palette.muted
    } else if name == "accent"@ {
        palette.accent
    } else if name == "mention"@ {
        palette.mention
    } else if name == "unread"@ {
        palette.unread
    } else {
        Seq::empty()
    }
}

/// A template with the colours of a palette for the names in angle brackets.
pub open spec fn filled(template: Seq<char>, palette: ThemePaletteModel) -> Seq<char>
    decreases template.len(),
{
    match find_char(template, '<', 0) {
        Some(open) if 0 <= open < template.len() => match find_char(template, '>', open) {
            Some(close) if open < close < template.len() => template.take(open) + colour(
                palette,
                template.subrange(open + 1, close),
            ) + filled(template.skip(close + 1), palette),
            _ => template,
        },
        _ => template,
    }
}

fn colour_for(palette: &ThemePalette, name: &str) -> (r: &'static str)
    ensures
        r@ == colour(palette.deep_view(), name@),
{
    if same_text(name, "background") {
        palette.background
    } else if same_text(name, "surface") {
        palette.surface
    } else if same_text(name, "surface_alt") {
        palette.surface_alt
    } else if same_text(name, "text") {
        palette.text
    } else if same_text(name, "muted") {
        palette.muted
    } else if same_text(name, "accent") {
        palette.accent
    } else if same_text(name, "mention") {
        palette.mention
    } else if same_text(name, "unread") {
        palette.unread
    } else {
        proof {
            reveal_strlit("");
            assert(""@ =~= Seq::empty());
        }
        ""
    }
}

/// The template with the colours of a palette for the names in angle brackets.
pub fn fill_template(template: &str, palette: &ThemePalette) -> (r: String)
    ensures
        r@ == filled(template@, palette.deep_view()),
{
    let chars = to_chars(template);
    let ghost colours = palette.deep_view();
    let mut out = String::new();
    let mut at: usize = 0;
    assert(template@.skip(0) =~= template@);
    assert(Seq::<char>::empty() + filled(template@, colours) =~= filled(template@, colours));
    loop
        invariant_except_break
            at <= chars.len(),
            chars@ == template@,
            colours == palette.deep_view(),
            out@ + filled(template@.skip(at as int), colours) == filled(template@, colours),
        ensures
            out@ == filled(template@, colours),
        decreases chars.len() - at,
    {
        let ghost rest = template@.skip(at as int);
        let ghost done = out@;
        proof {
            lemma_find_char_skip(template@, '<', at as int, 0);
            lemma_find_char(template@, '<', at as int);
        }
        let open = match position_of_char(&chars, '<', at) {
            Some(open) => open,
            None => {
                out.append(slice_text(&chars, at, chars.len()).as_str());
                assert(template@.subrange(at as int, template@.len() as int) =~= rest);
                break;
            },
        };
        proof {
            lemma_find_char_skip(template@, '>', at as int, open - at);
            lemma_find_char(template@, '>', open as int);
        }
        let close = match position_of_char(&chars, '>', open) {
            Some(close) => close,
            None => {
                out.append(slice_text(&chars, at, chars.len()).as_str());
                assert(template@.subrange(at as int, template@.len() as int) =~= rest);
                break;
            },
        };
        let name = slice_text(&chars, open + 1, close);
        assert(name@ =~= rest.subrange(open - at + 1, close - at));
        assert(rest.take(open - at) =~= template@.subrange(at as int, open as int));
        assert(rest.skip(close - at + 1) =~= template@.skip(close + 1));
        out.append(slice_text(&chars, at, open).as_str());
        let value = colour_for(palette, name.as_str());
        out.append(value);
        assert(done + (rest.take(open - at) + value@ + filled(template@.skip(close + 1), colours))
            =~= out@ + filled(template@.skip(close + 1), colours));
        at = close + 1;
    }
    out
}

/// Every theme is in the list of all themes.
pub proof fn lemma_all_themes(theme: ThemeId)
    ensures
        exists|k: int| 0 <= k < 12 && #[trigger] ThemeId::ALL[k] == theme,
        ThemeId::ALL@ == all_themes(),
{
    assert(ThemeId::ALL@ =~= all_themes());
    match theme {
        ThemeId::TokyoNightStorm => {
            assert(ThemeId::ALL[0] == theme);
        },
        ThemeId::CatppuccinMacchiato => {
            assert(ThemeId::ALL[1] == theme);
        },
        ThemeId::KanagawaDragon => {
            assert(ThemeId::ALL[2] == theme);
        },
        ThemeId::Nord => {
            assert(ThemeId::ALL[3] == theme);
        },
        ThemeId::GruvboxMaterialDark => {
            assert(ThemeId::ALL[4] == theme);
        },
        ThemeId::SunsetEmber => {
            assert(ThemeId::ALL[5] == theme);
        },
        ThemeId::TerracottaDawn => {
            assert(ThemeId::ALL[6] == theme);
        },
        ThemeId::OrchidDusk => {
            assert(ThemeId::ALL[7] == theme);
        },
        ThemeId::RoseQuartz => {
            assert(ThemeId::ALL[8] == theme);
        },
        ThemeId::HighContrastDark => {
            assert(ThemeId::ALL[9] == theme);
        },
        ThemeId::HighContrastLight => {
            assert(ThemeId::ALL[10] == theme);
        },
        ThemeId::GithubLight => {
            assert(ThemeId::ALL[11] == theme);
        },
    }
}

/// All themes with their colours, in order.
pub fn builtin_themes() -> (r: Vec<(ThemeId, ThemePalette)>)
    ensures
        r.deep_view() == all_themes().map_values(|theme: ThemeId| (theme, theme.colours())),
{
    let ghost goal = all_themes().map_values(|theme: ThemeId| (theme, theme.colours()));
    let mut themes: Vec<(ThemeId, ThemePalette)> = Vec::new();
    let mut i: usize = 0;
    proof {
        lemma_all_themes(ThemeId::Nord);
    }
    assert(themes.deep_view() =~= goal.take(0));
    while i < 12
        invariant
            i <= 12,
            ThemeId::ALL@ == all_themes(),
            goal == all_themes().map_values(|theme: ThemeId| (theme, theme.colours())),
            themes.deep_view() == goal.take(i as int),
        decreases 12 - i,
    {
        let ghost before = themes.deep_view();
        let theme = ThemeId::ALL[i];
        let palette = theme.palette();
        assert(goal[i as int] == (theme, palette.deep_view()));
        themes.push((theme, palette));
        assert(themes.deep_view() =~= before.push(goal[i as int]));
        i += 1;
        assert(goal.take(i as int) =~= goal.take(i - 1).push(goal[i - 1]));
    }
    assert(goal.take(i as int) =~= goal);
    themes
}

/// A character of a theme's name for users as it stands in the name in settings: in lower case,
/// with a dash for a space.
pub open spec fn slug_char(c: char) -> char {
    if 'A' <= c <= 'Z' {
        ((c as u32 + 32) as u32) as char
    } else if c == ' ' {
        '-'
    } else {
        c
    }
}

/// The name of a theme in settings is its name for users in lower case, with dashes for spaces;
/// and no name is empty.
pub proof fn law_labels_give_slugs(theme: ThemeId)
    ensures
        theme.title().map_values(|c: char| slug_char(c)) == theme.name(),
        theme.title().len() > 0,
{
    match theme {
        ThemeId::TokyoNightStorm => {
            reveal_strlit("Tokyo Night Storm");
            reveal_strlit("tokyo-night-storm");
        },
        ThemeId::CatppuccinMacchiato => {
            reveal_strlit("Catppuccin Macchiato");
            reveal_strlit("catppuccin-macchiato");
        },
        ThemeId::KanagawaDragon => {
            reveal_strlit("Kanagawa Dragon");
            reveal_strlit("kanagawa-dragon");
        },
        ThemeId::Nord => {
            reveal_strlit("Nord");
            reveal_strlit("nord");
        },
        ThemeId::GruvboxMaterialDark => {
            reveal_strlit("Gruvbox Material Dark");
            reveal_strlit("gruvbox-material-dark");
        },
        ThemeId::SunsetEmber => {
            reveal_strlit("Sunset Ember");
            reveal_strlit("sunset-ember");
        },
        ThemeId::TerracottaDawn => {
            reveal_strlit("Terracotta Dawn");
            reveal_strlit("terracotta-dawn");
        },
        ThemeId::OrchidDusk => {
            reveal_strlit("Orchid Dusk");
            reveal_strlit("orchid-dusk");
        },
        ThemeId::RoseQuartz => {
            reveal_strlit("Rose Quartz");
            reveal_strlit("rose-quartz");
        },
        ThemeId::HighContrastDark => {
            reveal_strlit("High Contrast Dark");
            reveal_strlit("high-contrast-dark");
        },
        ThemeId::HighContrastLight => {
            reveal_strlit("High Contrast Light");
            reveal_strlit("high-contrast-light");
        },
        ThemeId::GithubLight => {
            reveal_strlit("GitHub Light");
            reveal_strlit("github-light");
        },
    }
    assert(theme.title().map_values(|c: char| slug_char(c)) =~= theme.name());
}

/// No two themes have one name for users.
pub proof fn law_labels_name_one_theme(left: ThemeId, right: ThemeId)
    requires
        left.title() == right.title(),
    ensures
        left == right,
{
    law_labels_give_slugs(left);
    law_labels_give_slugs(right);
    law_slugs_name_one_theme(left, right);
}

/// No two themes have one name in settings, so that reading a name back gives the theme.
pub proof fn law_slugs_name_one_theme(left: ThemeId, right: ThemeId)
    requires
        left.name() == right.name(),
    ensures
        left == right,
{
    reveal_strlit("tokyo-night-storm");
    reveal_strlit("catppuccin-macchiato");
    reveal_strlit("kanagawa-dragon");
    reveal_strlit("nord");
    reveal_strlit("gruvbox-material-dark");
    reveal_strlit("sunset-ember");
    reveal_strlit("terracotta-dawn");
    reveal_strlit("orchid-dusk");
    reveal_strlit("rose-quartz");
    reveal_strlit("high-contrast-dark");
    reveal_strlit("high-contrast-light");
    reveal_strlit("github-light");
    lemma_slug_marks(left);
    lemma_slug_marks(right);
}

/// What tells the names apart: their lengths, and a character where two are of one length.
proof fn lemma_slug_marks(theme: ThemeId)
    ensures
        theme is TokyoNightStorm ==> theme.name().len() == 17,
        theme is CatppuccinMacchiato ==> theme.name().len() == 20,
        theme is KanagawaDragon ==> theme.name().len() == 15 && theme.name()[0] == 'k',
        theme is Nord ==> theme.name().len() == 4,
        theme is GruvboxMaterialDark ==> theme.name().len() == 21,
        theme is SunsetEmber ==> theme.name().len() == 12 && theme.name()[0] == 's',
        theme is TerracottaDawn ==> theme.name().len() == 15 && theme.name()[0] == 't',
        theme is OrchidDusk ==> theme.name().len() == 11 && theme.name()[0] == 'o',
        theme is RoseQuartz ==> theme.name().len() == 11 && theme.name()[0] == 'r',
        theme is HighContrastDark ==> theme.name().len() == 18,
        theme is HighContrastLight ==> theme.name().len() == 19,
        theme is GithubLight ==> theme.name().len() == 12 && theme.name()[0] == 'g',
{
    reveal_strlit("tokyo-night-storm");
    reveal_strlit("catppuccin-macchiato");
    reveal_strlit("kanagawa-dragon");
    reveal_strlit("nord");
    reveal_strlit("gruvbox-material-dark");
    reveal_strlit("sunset-ember");
    reveal_strlit("terracotta-dawn");
    reveal_strlit("orchid-dusk");
    reveal_strlit("rose-quartz");
    reveal_strlit("high-contrast-dark");
    reveal_strlit("high-contrast-light");
    reveal_strlit("github-light");
}

/// The style sheet, with names of colours in angle brackets.
pub const CSS_TEMPLATE: &'static str = r#"
window {
    background: <surface>;
    color: <text>;
    font-family: "IBM Plex Sans", "Noto Sans JP", Cantarell, sans-serif;
}
.app-root {
    background: <surface>;
}
label {
    color: <text>;
}
.icon-rail {
    background: <surface>;
    border-radius: 0;
    padding: 14px 10px;
}
.deck-column {
    background: <surface>;
    border-radius: 0;
    padding: 14px;
}
.timeline-column {
    padding: 0;
    border-radius: 0;
}
.timeline-head {
    padding: 14px 14px 0 14px;
}
.timeline-filterbar {
    padding-bottom: 2px;
}
.settings-column {
    background: <surface_alt>;
}
.card {
    background: shade(<surface_alt>, 1.04);
    border-radius: 16px;
    border: 1px solid alpha(<muted>, 0.28);
    padding: 12px;
}
.card {
    margin: 6px 0;
}
.card-active, .thread-root {
    border: 2px solid <accent>;
}
.timeline-list {
    background: transparent;
}
.timeline-tile {
    background: transparent;
    border-radius: 0;
    border-bottom: 1px solid alpha(<muted>, 0.24);
    padding: 14px;
    margin: 0;
}
.timeline-tile:hover {
    background: alpha(<accent>, 0.08);
}
.timeline-tile-active {
    background: alpha(<accent>, 0.12);
    border-left: 4px solid <accent>;
}
.timeline-tile-fresh {
    background: alpha(<accent>, 0.18);
    border-left: 4px solid alpha(<accent>, 0.88);
}
.timeline-empty {
    min-height: 200px;
}
.author {
    color: <text>;
    font-weight: 700;
}
.timestamp {
    color: <muted>;
}
.avatar-shell {
    min-width: 44px;
    min-height: 44px;
    background: transparent;
    border-radius: 999px;
}
.avatar-shell-media {
    border: none;
    background: transparent;
}
.avatar-fallback {
    background: alpha(<accent>, 0.18);
    border-radius: 999px;
    border: 1px solid alpha(<muted>, 0.24);
}
.avatar-media {
    border-radius: 999px;
}
.avatar-initials {
    color: <accent>;
    font-weight: 800;
}
.brand-mark {
    min-height: 48px;
}
.pill {
    background: alpha(<accent>, 0.16);
    color: <accent>;
    border-radius: 999px;
    padding: 4px 10px;
    font-weight: 700;
}
.meta {
    color: <muted>;
}
.slack-rich-paragraph,
.slack-rich-quote-text,
.slack-rich-list-text,
.slack-code-text {
    color: <text>;
    line-height: 1.2;
}
.slack-rich-quote {
    border-left: 3px solid alpha(<muted>, 0.45);
    padding-left: 10px;
}
.slack-rich-list-bullet {
    color: <muted>;
    min-width: 24px;
    font-weight: 700;
}
.slack-code-block {
    background: #f6f3ed;
    border: 1px solid #ddd4c7;
    border-radius: 8px;
    padding: 10px 12px;
}
.slack-code-text,
.slack-code-view,
.slack-code-view text {
    color: #2d2d29;
    background: transparent;
    font-family: "IBM Plex Mono", "Noto Sans Mono", monospace;
}
.slack-rich-table-wrap {
    background: #fffdfa;
    border: 1px solid #ddd4c7;
    border-radius: 10px;
}
.slack-rich-table-header,
.slack-rich-table-cell {
    padding: 8px 10px;
    border-right: 1px solid #e6ddd0;
    border-bottom: 1px solid #e6ddd0;
}
.slack-rich-table-header {
    background: #f3eee4;
}
.slack-rich-table-cell {
    background: #fffdfa;
}
.slack-rich-table-edge-right {
    border-right: none;
}
.slack-rich-table-edge-bottom {
    border-bottom: none;
}
.slack-rich-table-corner-top-left {
    border-top-left-radius: 10px;
}
.slack-rich-table-corner-top-right {
    border-top-right-radius: 10px;
}
.slack-rich-table-corner-bottom-left {
    border-bottom-left-radius: 10px;
}
.slack-rich-table-corner-bottom-right {
    border-bottom-right-radius: 10px;
}
.slack-rich-table-text {
    color: #2d2d29;
}
.accent {
    color: <accent>;
}
.mention {
    color: <mention>;
}
.unread {
    color: <unread>;
}
button.nav-button {
    background: transparent;
    color: <muted>;
    border-radius: 16px;
    min-width: 48px;
    min-height: 48px;
    padding: 10px;
}
button.nav-button:hover {
    background: alpha(<accent>, 0.12);
    color: <text>;
}
button.nav-button.active {
    background: <accent>;
    color: <background>;
}
button:hover {
    background: alpha(<accent>, 0.10);
}
button.reply-button {
    background: transparent;
    color: <muted>;
    border-radius: 10px;
    min-width: 28px;
    min-height: 28px;
    padding: 4px;
}
button.reply-button:hover {
    background: alpha(<accent>, 0.12);
}
.reply-count {
    color: <muted>;
    font-weight: 700;
}
button.close-button {
    background: transparent;
    color: <muted>;
    border-radius: 12px;
    min-width: 36px;
    min-height: 36px;
    padding: 8px;
}
button.close-button:hover {
    background: alpha(<accent>, 0.12);
}
textview {
    background: <surface_alt>;
    color: <text>;
    border-radius: 14px;
}
button.suggested-action {
    background: <accent>;
    color: <background>;
    border-radius: 12px;
}
button.suggested-action:hover {
    background: shade(<accent>, 1.08);
}
entry, searchentry, combobox {
    background: <surface_alt>;
    color: <text>;
    border-radius: 12px;
}
entry:hover, searchentry:hover, combobox:hover {
    background: alpha(<accent>, 0.10);
    border-color: alpha(<accent>, 0.55);
}
scrolledwindow {
    background: transparent;
}
.thread-message {
    margin: 0;
    border-radius: 0;
    border-bottom: 1px solid alpha(<muted>, 0.24);
}
.attachment-strip {
    margin-top: 2px;
}
.reaction-bar {
    margin-top: 2px;
}
button.reaction-chip {
    background: alpha(<accent>, 0.08);
    color: <text>;
    border-radius: 999px;
    padding: 3px 10px;
    min-height: 28px;
}
button.reaction-chip:hover {
    background: alpha(<accent>, 0.14);
}
button.reaction-chip.active {
    background: alpha(<accent>, 0.22);
    color: <accent>;
}
button.quick-reaction-chip {
    padding: 2px 10px;
}
menubutton.reaction-add-button > button {
    background: alpha(<accent>, 0.05);
    color: <muted>;
    border-radius: 999px;
    padding: 3px 10px;
    min-height: 28px;
}
menubutton.reaction-add-button > button:hover {
    background: alpha(<accent>, 0.14);
    color: <text>;
}
.reaction-popover {
    padding: 4px;
}
.reaction-entry {
    min-width: 144px;
}
.shared-preview-strip {
    margin-top: 2px;
}
.shared-preview-card {
    background: alpha(<accent>, 0.04);
    border: 1px solid alpha(<muted>, 0.16);
    border-radius: 12px;
    padding: 8px 10px;
}
.shared-preview-body {
    color: <text>;
}
.attachment-card {
    background: alpha(<accent>, 0.06);
    border: 1px solid alpha(<muted>, 0.18);
    border-radius: 14px;
    padding: 8px;
}
.attachment-image {
    border-radius: 14px;
}
.attachment-label {
    color: <text>;
    font-weight: 600;
}
.office-scene {
    background: transparent;
}
button.office-desk {
    background: transparent;
    color: <text>;
    border: none;
    border-radius: 0;
    padding: 0;
    min-width: 240px;
    min-height: 238px;
}
button.office-desk:hover {
    background: alpha(<accent>, 0.06);
}
.office-bubble {
    background: #ffffff;
    border-radius: 18px;
    padding: 10px 12px;
    border: 3px solid #b8b8b1;
    min-height: 92px;
}
.office-bubble-tail {
    background: transparent;
}
.office-nameplate {
    background: transparent;
    border-radius: 0;
    padding: 0;
    border: none;
}
.office-channel {
    color: #2d2d29;
    font-weight: 700;
    font-family: "IBM Plex Mono", "Noto Sans Mono", monospace;
}
.office-bubble-body {
    color: #2d2d29;
    font-family: "IBM Plex Mono", "Noto Sans Mono", monospace;
    line-height: 1.15;
}
.office-avatar-shell {
    background: transparent;
    border: none;
    border-radius: 0;
    padding: 0;
}
.office-avatar {
    margin-top: 0;
    border-radius: 999px;
}
.office-pixel-avatar {
    background: transparent;
}
.office-speaker {
    color: <background>;
    font-weight: 700;
    font-family: "IBM Plex Mono", "Noto Sans Mono", monospace;
}
.office-signal {
    color: <mention>;
    font-weight: 900;
    font-family: "IBM Plex Mono", "Noto Sans Mono", monospace;
}
.office-activity-badge {
    background: transparent;
    color: shade(<muted>, 0.72);
    border-radius: 0;
    padding: 0;
    font-weight: 700;
    font-family: "IBM Plex Mono", "Noto Sans Mono", monospace;
}
.office-desk-top {
    background: #8b6445;
    border: 3px solid #5f402c;
    border-radius: 0;
}
.office-desk-trim {
    background: #6f4a33;
}
.office-desk-modesty {
    background: #79523a;
}
.office-desk-leg {
    background: #5b3d29;
}
.office-desk-drawer {
    background: #a57855;
    border: 2px solid #6d4a32;
}
.office-monitor-shell {
    background: #2d3238;
    border: 3px solid #181c20;
}
.office-monitor-screen {
    background: #7fd1ff;
    border: 2px solid #2d5c74;
}
.office-monitor-stand {
    background: #444a53;
}
.office-monitor-base {
    background: #2b3138;
}
.office-desk-hot .office-monitor-screen {
    background: #ff9a66;
}
.office-desk-warm .office-monitor-screen {
    background: #9ad8ff;
}
.office-keyboard-shell {
    background: #e1d4bf;
    border: 2px solid #b8a890;
}
.office-key {
    background: #c8baa3;
}
.office-chair-back {
    background: #5d6d83;
    border: 3px solid #38414d;
}
.office-chair-seat {
    background: #6f829c;
    border: 3px solid #404b59;
}
.office-chair-stem {
    background: #3a4048;
}
.office-chair-base {
    background: #2a3038;
}
.office-chair-wheel {
    background: #20262d;
}
.office-mug-body {
    background: #d65e48;
    border: 2px solid #964031;
}
.office-mug-handle {
    background: #efc5b9;
    border: 2px solid #964031;
}
.office-break-mat {
    background: #d9c5a0;
    border: 3px solid #b3976e;
    border-radius: 18px;
}
.office-sofa-back {
    background: #7f9a82;
    border: 3px solid #576c59;
    border-radius: 12px 12px 4px 4px;
}
.office-sofa-arm {
    background: #6c866f;
    border: 3px solid #506253;
    border-radius: 10px;
}
.office-sofa-seat {
    background: #91ab94;
    border: 3px solid #5f745f;
    border-radius: 8px;
}
.office-sofa-cushion {
    background: #a6bea7;
    border: 2px solid #718873;
    border-radius: 8px;
}
.office-sofa-leg {
    background: #5b3d29;
}
.office-table-top {
    background: #b7895f;
    border: 3px solid #7a5638;
    border-radius: 10px;
}
.office-table-leg {
    background: #7a5638;
}
.office-table-shelf {
    background: #9b6f49;
    border-radius: 6px;
}
.office-table-book {
    background: #6f8fb6;
    border: 2px solid #4e6685;
    border-radius: 4px;
}
.office-table-mug {
    background: #efe4d8;
    border: 2px solid #8f6d53;
    border-radius: 6px;
}
.office-vending-shell {
    background: #f2eee5;
    border: 3px solid #b9b1a2;
    border-radius: 0;
}
.office-vending-window {
    background: #a7d9f2;
    border: 2px solid #6e96ae;
}
.office-vending-panel {
    background: #d3cabd;
    border: 2px solid #a59b8d;
}
.office-vending-slot {
    background: #777066;
}
.office-vending-button {
    background: #6ca6c1;
}
.office-whiteboard-frame {
    background: #c4a27f;
    border: 3px solid #8b6b4f;
}
.office-whiteboard-panel {
    background: #f8f7f2;
    border: 2px solid #d8d4c8;
}
.office-note-yellow {
    background: #f2dc6b;
}
.office-note-blue {
    background: #8fcbef;
}
.office-note-red {
    background: #e98e7f;
}
.office-bookshelf-shell {
    background: #7d5e44;
    border: 3px solid #5e442f;
}
.office-bookshelf-plank {
    background: #5d432f;
}
.office-book-green {
    background: #83a15a;
}
.office-book-blue {
    background: #6d8fb8;
}
.office-book-red {
    background: #b86857;
}
.office-book-yellow {
    background: #d8bf67;
}
.office-planter-pot {
    background: #956643;
    border: 3px solid #6b462d;
}
.office-planter-soil {
    background: #4a311f;
}
.office-planter-leaf-a {
    background: #679d59;
}
.office-planter-leaf-b {
    background: #7db56c;
}
.office-planter-leaf-c {
    background: #4f8247;
}
.office-zone-label {
    color: #5e5240;
    font-weight: 700;
    font-family: "IBM Plex Mono", "Noto Sans Mono", monospace;
}
.office-empty-card {
    background: <surface>;
    border-radius: 0;
    border: 3px solid shade(<muted>, 0.80);
    padding: 22px;
    min-width: 280px;
}
"#;

} // verus!
