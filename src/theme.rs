use vstd::prelude::*;
use crate::text::text_eq;

verus! {

/// A terminal colour by name: the sixteen standard colours and the
/// terminal's own default.
#[derive(Debug, Clone, Copy, PartialEq, Eq, Structural)]
pub enum Color {
    Reset,
    Black,
    Red,
    Green,
    Yellow,
    Blue,
    Magenta,
    Cyan,
    Gray,
    DarkGray,
    LightRed,
    LightGreen,
    LightYellow,
    LightBlue,
    LightMagenta,
    LightCyan,
    White,
}

/// A palette: a colour for each display role and for each known tag.
#[derive(Debug, Clone, Copy, PartialEq, Eq, Structural)]
pub struct Theme {
    pub primary: Color,
    pub secondary: Color,
    pub accent: Color,
    pub text_primary: Color,
    pub text_secondary: Color,
    pub success: Color,
    pub danger: Color,
    pub border_normal: Color,
    pub border_focused: Color,
    pub background_selected: Color,
    pub tag_urgent: Color,
    pub tag_security: Color,
    pub tag_bug: Color,
    pub tag_feature: Color,
    pub tag_performance: Color,
    pub tag_enhancement: Color,
    pub tag_user: Color,
    pub tag_dev: Color,
    pub tag_documentation: Color,
    pub tag_design: Color,
    pub tag_refactor: Color,
    pub tag_default: Color,
}

/// The colour a palette gives to a tag; unknown tags get the default tag colour.
pub open spec fn tag_color(t: Theme, tag: Seq<char>) -> Color {
    if tag == "urgent"@ {
        t.tag_urgent
    } else if tag == "security"@ {
        t.tag_security
    } else if tag == "bug"@ {
        t.tag_bug
    } else if tag == "feature"@ {
        t.tag_feature
    } else if tag == "performance"@ {
        t.tag_performance
    } else if tag == "enhancement"@ {
        t.tag_enhancement
    } else if tag == "User"@ {
        t.tag_user
    } else if tag == "Dev"@ {
        t.tag_dev
    } else if tag == "documentation"@ {
        t.tag_documentation
    } else if tag == "design"@ {
        t.tag_design
    } else if tag == "refactor"@ {
        t.tag_refactor
    } else {
        t.tag_default
    }
}

/// The names of the palettes, in the order they are offered.
pub open spec fn theme_names() -> Seq<Seq<char>> {
    seq!["high-contrast"@, "classic"@, "solarized-dark"@, "gruvbox"@, "nord"@]
}

pub open spec fn high_contrast_palette() -> Theme {
    Theme {
        primary: Color::Cyan,
        secondary: Color::Cyan,
        accent: Color::LightYellow,
        text_primary: Color::White,
        text_secondary: Color::White,
        success: Color::LightGreen,
        danger: Color::LightRed,
        border_normal: Color::White,
        border_focused: Color::Cyan,
        background_selected: Color::Blue,
        tag_urgent: Color::LightRed,
        tag_security: Color::Red,
        tag_bug: Color::LightYellow,
        tag_feature: Color::LightGreen,
        tag_performance: Color::Green,
        tag_enhancement: Color::LightBlue,
        tag_user: Color::Cyan,
        tag_dev: Color::LightMagenta,
        tag_documentation: Color::LightCyan,
        tag_design: Color::Cyan,
        tag_refactor: Color::Yellow,
        tag_default: Color::White,
    }
}

pub open spec fn classic_palette() -> Theme {
    Theme {
        primary: Color::Cyan,
        secondary: Color::Cyan,
        accent: Color::Yellow,
        text_primary: Color::White,
        text_secondary: Color::White,
        success: Color::Green,
        danger: Color::Red,
        border_normal: Color::White,
        border_focused: Color::Cyan,
        background_selected: Color::Blue,
        tag_urgent: Color::Red,
        tag_security: Color::LightRed,
        tag_bug: Color::Yellow,
        tag_feature: Color::Green,
        tag_performance: Color::LightGreen,
        tag_enhancement: Color::Blue,
        tag_user: Color::LightBlue,
        tag_dev: Color::Magenta,
        tag_documentation: Color::Cyan,
        tag_design: Color::LightCyan,
        tag_refactor: Color::LightYellow,
        tag_default: Color::White,
    }
}

pub open spec fn solarized_dark_palette() -> Theme {
    Theme {
        primary: Color::Cyan,
        secondary: Color::Blue,
        accent: Color::Yellow,
        text_primary: Color::LightCyan,
        text_secondary: Color::Cyan,
        success: Color::Green,
        danger: Color::Red,
        border_normal: Color::Cyan,
        border_focused: Color::Cyan,
        background_selected: Color::DarkGray,
        tag_urgent: Color::Red,
        tag_security: Color::LightRed,
        tag_bug: Color::Yellow,
        tag_feature: Color::Green,
        tag_performance: Color::LightGreen,
        tag_enhancement: Color::Blue,
        tag_user: Color::LightBlue,
        tag_dev: Color::Magenta,
        tag_documentation: Color::Cyan,
        tag_design: Color::LightCyan,
        tag_refactor: Color::LightYellow,
        tag_default: Color::White,
    }
}

pub open spec fn gruvbox_palette() -> Theme {
    Theme {
        primary: Color::LightYellow,
        secondary: Color::LightGreen,
        accent: Color::Yellow,
        text_primary: Color::LightYellow,
        text_secondary: Color::Yellow,
        success: Color::Green,
        danger: Color::Red,
        border_normal: Color::Yellow,
        border_focused: Color::LightYellow,
        background_selected: Color::DarkGray,
        tag_urgent: Color::Red,
        tag_security: Color::LightRed,
        tag_bug: Color::Yellow,
        tag_feature: Color::Green,
        tag_performance: Color::LightGreen,
        tag_enhancement: Color::Blue,
        tag_user: Color::LightBlue,
        tag_dev: Color::Magenta,
        tag_documentation: Color::Cyan,
        tag_design: Color::LightCyan,
        tag_refactor: Color::LightYellow,
        tag_default: Color::White,
    }
}

pub open spec fn nord_palette() -> Theme {
    Theme {
        primary: Color::Cyan,
        secondary: Color::LightBlue,
        accent: Color::White,
        text_primary: Color::White,
        text_secondary: Color::LightCyan,
        success: Color::Green,
        danger: Color::Red,
        border_normal: Color::Blue,
        border_focused: Color::Cyan,
        background_selected: Color::DarkGray,
        tag_urgent: Color::Red,
        tag_security: Color::LightRed,
        tag_bug: Color::Yellow,
        tag_feature: Color::Green,
        tag_performance: Color::LightGreen,
        tag_enhancement: Color::Blue,
        tag_user: Color::LightBlue,
        tag_dev: Color::Magenta,
        tag_documentation: Color::Cyan,
        tag_design: Color::LightCyan,
        tag_refactor: Color::LightYellow,
        tag_default: Color::White,
    }
}

/// The palette offered at a position of `theme_names`.
pub open spec fn palette_at(i: int) -> Theme {
    if i == 0 {
        high_contrast_palette()
    } else if i == 1 {
        classic_palette()
    } else if i == 2 {
        solarized_dark_palette()
    } else if i == 3 {
        gruvbox_palette()
    } else {
        nord_palette()
    }
}

/// The palette with the given name, if there is one.
pub open spec fn palette_named(name: Seq<char>) -> Option<Theme> {
    if name == "high-contrast"@ {
        Some(high_contrast_palette())
    } else if name == "classic"@ {
        Some(classic_palette())
    } else if name == "solarized-dark"@ {
        Some(solarized_dark_palette())
    } else if name == "gruvbox"@ {
        Some(gruvbox_palette())
    } else if name == "nord"@ {
        Some(nord_palette())
    } else {
        None
    }
}

impl Theme {
    /// The colour for a tag; tags without a colour of their own get the
    /// default tag colour.
    pub fn get_tag_color(&self, tag: &str) -> (r: Color)
        ensures
            r == tag_color(*self, tag@),
    {
        proof {
            reveal_strlit("urgent");
            reveal_strlit("security");
            reveal_strlit("bug");
            reveal_strlit("feature");
            reveal_strlit("performance");
            reveal_strlit("enhancement");
            reveal_strlit("User");
            reveal_strlit("Dev");
            reveal_strlit("documentation");
            reveal_strlit("design");
            reveal_strlit("refactor");
        }
        if text_eq(tag, "urgent") {
            self.tag_urgent
        } else if text_eq(tag, "security") {
            self.tag_security
        } else if text_eq(tag, "bug") {
            self.tag_bug
        } else if text_eq(tag, "feature") {
            self.tag_feature
        } else if text_eq(tag, "performance") {
            self.tag_performance
        } else if text_eq(tag, "enhancement") {
            self.tag_enhancement
        } else if text_eq(tag, "User") {
            self.tag_user
        } else if text_eq(tag, "Dev") {
            self.tag_dev
        } else if text_eq(tag, "documentation") {
            self.tag_documentation
        } else if text_eq(tag, "design") {
            self.tag_design
        } else if text_eq(tag, "refactor") {
            self.tag_refactor
        } else {
            self.tag_default
        }
    }

    /// The palette with the given name, if there is one.
    pub fn from_name(name: &str) -> (r: Option<Self>)
        ensures
            r == palette_named(name@),
    {
        proof {
            reveal_strlit("high-contrast");
            reveal_strlit("classic");
            reveal_strlit("solarized-dark");
            reveal_strlit("gruvbox");
            reveal_strlit("nord");
        }
        if text_eq(name, "high-contrast") {
            Some(Self::high_contrast())
        } else if text_eq(name, "classic") {
            Some(Self::classic())
        } else if text_eq(name, "solarized-dark") {
            Some(Self::solarized_dark())
        } else if text_eq(name, "gruvbox") {
            Some(Self::gruvbox())
        } else if text_eq(name, "nord") {
            Some(Self::nord())
        } else {
            None
        }
    }

    /// The palette at a position of the list of names.
    pub fn by_index(i: usize) -> (r: Self)
        requires
            i < theme_names().len(),
        ensures
            r == palette_at(i as int),
    {
        if i == 0 {
            Self::high_contrast()
        } else if i == 1 {
            Self::classic()
        } else if i == 2 {
            Self::solarized_dark()
        } else if i == 3 {
            Self::gruvbox()
        } else {
            Self::nord()
        }
    }

    /// The names of all palettes, in the order they are offered.
    pub fn all_theme_names() -> (r: Vec<&'static str>)
        ensures
            r@.len() == theme_names().len(),
            forall|i: int| 0 <= i < r@.len() ==> #[trigger] r@[i]@ == theme_names()[i],
    {
        proof {
            reveal_strlit("high-contrast");
            reveal_strlit("classic");
            reveal_strlit("solarized-dark");
            reveal_strlit("gruvbox");
            reveal_strlit("nord");
        }
        let mut r: Vec<&'static str> = Vec::new();
        r.push("high-contrast");
        r.push("classic");
        r.push("solarized-dark");
        r.push("gruvbox");
        r.push("nord");
        r
    }

    fn high_contrast() -> (r: Self)
        ensures
            r == high_contrast_palette(),
    {
        Theme {
            primary: Color::Cyan,
            secondary: Color::Cyan,
            accent: Color::LightYellow,
            text_primary: Color::White,
            text_secondary: Color::White,
            success: Color::LightGreen,
            danger: Color::LightRed,
            border_normal: Color::White,
            border_focused: Color::Cyan,
            background_selected: Color::Blue,
            tag_urgent: Color::LightRed,
            tag_security: Color::Red,
            tag_bug: Color::LightYellow,
            tag_feature: Color::LightGreen,
            tag_performance: Color::Green,
            tag_enhancement: Color::LightBlue,
            tag_user: Color::Cyan,
            tag_dev: Color::LightMagenta,
            tag_documentation: Color::LightCyan,
            tag_design: Color::Cyan,
            tag_refactor: Color::Yellow,
            tag_default: Color::White,
        }
    }

    fn classic() -> (r: Self)
        ensures
            r == classic_palette(),
    {
        Theme {
            primary: Color::Cyan,
            secondary: Color::Cyan,
            accent: Color::Yellow,
            text_primary: Color::White,
            text_secondary: Color::White,
            success: Color::Green,
            danger: Color::Red,
            border_normal: Color::White,
            border_focused: Color::Cyan,
            background_selected: Color::Blue,
            tag_urgent: Color::Red,
            tag_security: Color::LightRed,
            tag_bug: Color::Yellow,
            tag_feature: Color::Green,
            tag_performance: Color::LightGreen,
            tag_enhancement: Color::Blue,
            tag_user: Color::LightBlue,
            tag_dev: Color::Magenta,
            tag_documentation: Color::Cyan,
            tag_design: Color::LightCyan,
            tag_refactor: Color::LightYellow,
            tag_default: Color::White,
        }
    }

    fn solarized_dark() -> (r: Self)
        ensures
            r == solarized_dark_palette(),
    {
        Theme {
            primary: Color::Cyan,
            secondary: Color::Blue,
            accent: Color::Yellow,
            text_primary: Color::LightCyan,
            text_secondary: Color::Cyan,
            success: Color::Green,
            danger: Color::Red,
            border_normal: Color::Cyan,
            border_focused: Color::Cyan,
            background_selected: Color::DarkGray,
            tag_urgent: Color::Red,
            tag_security: Color::LightRed,
            tag_bug: Color::Yellow,
            tag_feature: Color::Green,
            tag_performance: Color::LightGreen,
            tag_enhancement: Color::Blue,
            tag_user: Color::LightBlue,
            tag_dev: Color::Magenta,
            tag_documentation: Color::Cyan,
            tag_design: Color::LightCyan,
            tag_refactor: Color::LightYellow,
            tag_default: Color::White,
        }
    }

    fn gruvbox() -> (r: Self)
        ensures
            r == gruvbox_palette(),
    {
        Theme {
            primary: Color::LightYellow,
            secondary: Color::LightGreen,
            accent: Color::Yellow,
            text_primary: Color::LightYellow,
            text_secondary: Color::Yellow,
            success: Color::Green,
            danger: Color::Red,
            border_normal: Color::Yellow,
            border_focused: Color::LightYellow,
            background_selected: Color::DarkGray,
            tag_urgent: Color::Red,
            tag_security: Color::LightRed,
            tag_bug: Color::Yellow,
            tag_feature: Color::Green,
            tag_performance: Color::LightGreen,
            tag_enhancement: Color::Blue,
            tag_user: Color::LightBlue,
            tag_dev: Color::Magenta,
            tag_documentation: Color::Cyan,
            tag_design: Color::LightCyan,
            tag_refactor: Color::LightYellow,
            tag_default: Color::White,
        }
    }

    fn nord() -> (r: Self)
        ensures
            r == nord_palette(),
    {
        Theme {
            primary: Color::Cyan,
            secondary: Color::LightBlue,
            accent: Color::White,
            text_primary: Color::White,
            text_secondary: Color::LightCyan,
            success: Color::Green,
            danger: Color::Red,
            border_normal: Color::Blue,
            border_focused: Color::Cyan,
            background_selected: Color::DarkGray,
            tag_urgent: Color::Red,
            tag_security: Color::LightRed,
            tag_bug: Color::Yellow,
            tag_feature: Color::Green,
            tag_performance: Color::LightGreen,
            tag_enhancement: Color::Blue,
            tag_user: Color::LightBlue,
            tag_dev: Color::Magenta,
            tag_documentation: Color::Cyan,
            tag_design: Color::LightCyan,
            tag_refactor: Color::LightYellow,
            tag_default: Color::White,
        }
    }

}

impl Default for Theme {
    /// The high-contrast palette.
    fn default() -> (r: Self)
        ensures
            r == high_contrast_palette(),
    {
        Self::high_contrast()
    }
}

/// The position of a palette's name among `theme_names`, if it is one.
pub open spec fn theme_position(name: Seq<char>) -> Option<int> {
    if name == "high-contrast"@ {
        Some(0)
    } else if name == "classic"@ {
        Some(1)
    } else if name == "solarized-dark"@ {
        Some(2)
    } else if name == "gruvbox"@ {
        Some(3)
    } else if name == "nord"@ {
        Some(4)
    } else {
        None
    }
}

impl Theme {
    /// The position of a palette's name in the list of names, if it is one.
    pub fn position(name: &str) -> (r: Option<usize>)
        ensures
            r matches Some(k) ==> theme_position(name@) == Some(k as int),
            r is None ==> theme_position(name@) is None,
    {
        proof {
            reveal_strlit("high-contrast");
            reveal_strlit("classic");
            reveal_strlit("solarized-dark");
            reveal_strlit("gruvbox");
            reveal_strlit("nord");
        }
        if text_eq(name, "high-contrast") {
            Some(0)
        } else if text_eq(name, "classic") {
            Some(1)
        } else if text_eq(name, "solarized-dark") {
            Some(2)
        } else if text_eq(name, "gruvbox") {
            Some(3)
        } else if text_eq(name, "nord") {
            Some(4)
        } else {
            None
        }
    }
}

} // verus!
