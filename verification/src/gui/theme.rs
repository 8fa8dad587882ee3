//! The themes.

use vstd::prelude::*;

use crate::text::same;

verus! {

broadcast use vstd::string::group_string_axioms;

/// A built-in theme.
#[derive(Debug, Clone, Copy, PartialEq, Eq, Structural)]
pub enum ThemeKind {
    Darcula,
    Light,
}

impl Default for ThemeKind {
    fn default() -> (r: Self)
        ensures
            r == ThemeKind::Darcula,
    {
        ThemeKind::Darcula
    }
}

impl ThemeKind {
    /// The name of the theme.
    pub open spec fn name(self) -> Seq<char> {
        match self {
            ThemeKind::Darcula => "Darcula"@,
            ThemeKind::Light => "Light"@,
        }
    }

    /// The name of the theme.
    pub fn label(&self) -> (r: &'static str)
        ensures
            r@ == self.name(),
    {
        match self {
            ThemeKind::Darcula => "Darcula",
            ThemeKind::Light => "Light",
        }
    }

    /// The theme of a name.
    pub fn from_label(label: &str) -> (r: Option<ThemeKind>)
        ensures
            match r {
                Some(kind) => kind.name() == label@,
                None => forall|kind: ThemeKind| kind.name() != label@,
            },
    {
        if same(label, "Darcula") {
            Some(ThemeKind::Darcula)
        } else if same(label, "Light") {
            Some(ThemeKind::Light)
        } else {
            None
        }
    }

    /// The color of success: red, green and blue.
    pub fn ok_color(&self) -> (r: (u8, u8, u8))
        ensures
            r == match self {
                ThemeKind::Darcula => (0x5Fu8, 0xADu8, 0x65u8),
                ThemeKind::Light => (0x2Du8, 0x8Bu8, 0x39u8),
            },
    {
        match self {
            ThemeKind::Darcula => (0x5F, 0xAD, 0x65),
            ThemeKind::Light => (0x2D, 0x8B, 0x39),
        }
    }

    /// The color of failures: red, green and blue.
    pub fn error_color(&self) -> (r: (u8, u8, u8))
        ensures
            r == match self {
                ThemeKind::Darcula => (0xF7u8, 0x54u8, 0x64u8),
                ThemeKind::Light => (0xC7u8, 0x54u8, 0x50u8),
            },
    {
        match self {
            ThemeKind::Darcula => (0xF7, 0x54, 0x64),
            ThemeKind::Light => (0xC7, 0x54, 0x50),
        }
    }

    /// What texts are shown on: red, green and blue.
    pub fn editor_bg(&self) -> (r: (u8, u8, u8))
        ensures
            r == match self {
                ThemeKind::Darcula => (0x1Eu8, 0x1Fu8, 0x22u8),
                ThemeKind::Light => (0xFFu8, 0xFFu8, 0xFFu8),
            },
    {
        match self {
            ThemeKind::Darcula => (0x1E, 0x1F, 0x22),
            ThemeKind::Light => (0xFF, 0xFF, 0xFF),
        }
    }
}

/// Themes have different names.
pub proof fn lemma_theme_names_differ(a: ThemeKind, b: ThemeKind)
    ensures
        a.name() == b.name() ==> a == b,
{
    reveal_strlit("Darcula");
    reveal_strlit("Light");
    assert("Darcula"@.len() == 7);
    assert("Light"@.len() == 5);
}

/// The color of a method badge: red, green and blue.
pub fn method_color(method: crate::model::Method) -> (r: (u8, u8, u8))
    ensures
        r == match method {
            crate::model::Method::Get => (0x49u8, 0x9Cu8, 0x54u8),
            crate::model::Method::Post => (0x35u8, 0x92u8, 0xC4u8),
            crate::model::Method::Put => (0xC7u8, 0x7Du8, 0x2Eu8),
            crate::model::Method::Patch => (0x2Au8, 0xA1u8, 0x98u8),
            crate::model::Method::Delete => (0xC7u8, 0x54u8, 0x50u8),
            _ => (0x9Eu8, 0x9Eu8, 0x9Eu8),
        },
{
    match method {
        crate::model::Method::Get => (0x49, 0x9C, 0x54),
        crate::model::Method::Post => (0x35, 0x92, 0xC4),
        crate::model::Method::Put => (0xC7, 0x7D, 0x2E),
        crate::model::Method::Patch => (0x2A, 0xA1, 0x98),
        crate::model::Method::Delete => (0xC7, 0x54, 0x50),
        _ => (0x9E, 0x9E, 0x9E),
    }
}

} // verus!
