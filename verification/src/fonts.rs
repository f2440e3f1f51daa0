//! Font name classification for the terminal font picker.
//!
//! Scanning the system's fonts is done by the application shell; what is
//! verified here is the classification of family names: which names are
//! Nerd Font variants, and which look monospace (by keyword or by
//! membership in the preferred list).

use vstd::prelude::*;
use crate::strutil::{
    contains_str, ends_with, lower_chars, occurs_at, is_suffix_of, to_ascii_lowercase, str_eq,
};

verus! {

/// Information about an available font on the system.
#[derive(Clone, Debug)]
pub struct AvailableFont {
    /// The font family name.
    pub family: String,
    /// Whether this is a Nerd Font variant.
    pub is_nerd_font: bool,
    /// Whether this font is monospace (suitable for terminals).
    pub is_monospace: bool,
}

/// True when the lowercased name marks a Nerd Font variant.
pub open spec fn nerd_font_spec(s: Seq<char>) -> bool {
    let lower = lower_chars(s);
    ||| (exists|at: int| occurs_at(lower, "nerd font"@, at))
    ||| (exists|at: int| occurs_at(lower, " nf"@, at))
    ||| is_suffix_of("nf"@, lower)
    ||| (exists|at: int| occurs_at(lower, "nerd"@, at))
}

/// Whether a family name indicates a Nerd Font variant.
pub fn is_nerd_font(family: &str) -> (r: bool)
    ensures
        r == nerd_font_spec(family@),
{
    let lower = to_ascii_lowercase(family);
    let l = lower.as_str();
    contains_str(l, "nerd font") || contains_str(l, " nf") || ends_with(l, "nf") || contains_str(
        l,
        "nerd",
    )
}

/// The preferred terminal fonts, in priority order: Nerd Font variants
/// first, then standard monospace families.
pub open spec fn preferred_list() -> Seq<Seq<char>> {
    seq![
        "JetBrainsMono Nerd Font"@,
        "JetBrainsMono NF"@,
        "FiraCode Nerd Font"@,
        "FiraCode NF"@,
        "CaskaydiaCove Nerd Font"@,
        "CaskaydiaCove NF"@,
        "Hack Nerd Font"@,
        "Hack NF"@,
        "MesloLGS Nerd Font"@,
        "MesloLGS NF"@,
        "Meslo LG S"@,
        "SourceCodePro Nerd Font"@,
        "SauceCodePro Nerd Font"@,
        "DejaVuSansMono Nerd Font"@,
        "RobotoMono Nerd Font"@,
        "UbuntuMono Nerd Font"@,
        "Inconsolata Nerd Font"@,
        "DroidSansMono Nerd Font"@,
        "JetBrains Mono"@,
        "Fira Code"@,
        "Cascadia Code"@,
        "Cascadia Mono"@,
        "Source Code Pro"@,
        "SF Mono"@,
        "Monaco"@,
        "Menlo"@,
        "Consolas"@,
        "DejaVu Sans Mono"@,
        "Ubuntu Mono"@,
        "Roboto Mono"@,
        "Inconsolata"@,
        "Droid Sans Mono"@,
        "Liberation Mono"@,
        "Courier New"@,
    ]
}

/// The preferred terminal fonts as strings, in priority order.
pub fn preferred_fonts() -> (r: Vec<&'static str>)
    ensures
        r@.len() == preferred_list().len(),
        forall|k: int| 0 <= k < r@.len() ==> (#[trigger] r@[k])@ == preferred_list()[k],
{
    let r: Vec<&'static str> = vec![
        "JetBrainsMono Nerd Font",
        "JetBrainsMono NF",
        "FiraCode Nerd Font",
        "FiraCode NF",
        "CaskaydiaCove Nerd Font",
        "CaskaydiaCove NF",
        "Hack Nerd Font",
        "Hack NF",
        "MesloLGS Nerd Font",
        "MesloLGS NF",
        "Meslo LG S",
        "SourceCodePro Nerd Font",
        "SauceCodePro Nerd Font",
        "DejaVuSansMono Nerd Font",
        "RobotoMono Nerd Font",
        "UbuntuMono Nerd Font",
        "Inconsolata Nerd Font",
        "DroidSansMono Nerd Font",
        "JetBrains Mono",
        "Fira Code",
        "Cascadia Code",
        "Cascadia Mono",
        "Source Code Pro",
        "SF Mono",
        "Monaco",
        "Menlo",
        "Consolas",
        "DejaVu Sans Mono",
        "Ubuntu Mono",
        "Roboto Mono",
        "Inconsolata",
        "Droid Sans Mono",
        "Liberation Mono",
        "Courier New",
    ];
    proof {
        assert(forall|k: int| 0 <= k < r@.len() ==> (#[trigger] r@[k])@ == preferred_list()[k]);
    }
    r
}

/// True when the lowercased name suggests a monospace font: a monospace
/// keyword, a Nerd Font marker, or case-insensitive membership in the
/// preferred list.
pub open spec fn monospace_spec(s: Seq<char>) -> bool {
    let lower = lower_chars(s);
    ||| (exists|at: int| occurs_at(lower, "mono"@, at))
    ||| (exists|at: int| occurs_at(lower, "code"@, at))
    ||| (exists|at: int| occurs_at(lower, "console"@, at))
    ||| (exists|at: int| occurs_at(lower, "terminal"@, at))
    ||| (exists|at: int| occurs_at(lower, "courier"@, at))
    ||| (exists|at: int| occurs_at(lower, "nerd font"@, at))
    ||| (exists|at: int| occurs_at(lower, " nf"@, at))
    ||| is_suffix_of("nf"@, lower)
    ||| (exists|k: int|
        0 <= k < preferred_list().len() && lower_chars(preferred_list()[k]) == lower)
}

/// Whether a family name suggests a monospace font.
pub fn is_likely_monospace(family: &str) -> (r: bool)
    ensures
        r == monospace_spec(family@),
{
    let lower = to_ascii_lowercase(family);
    let l = lower.as_str();
    if contains_str(l, "mono") || contains_str(l, "code") || contains_str(l, "console")
        || contains_str(l, "terminal") || contains_str(l, "courier") || contains_str(
        l,
        "nerd font",
    ) || contains_str(l, " nf") || ends_with(l, "nf") {
        return true;
    }
    let preferred = preferred_fonts();
    let n = preferred.len();
    let mut i: usize = 0;
    while i < n
        invariant
            i <= n,
            n == preferred_list().len(),
            preferred@.len() == n,
            forall|k: int|
                0 <= k < n ==> (#[trigger] preferred@[k])@ == preferred_list()[k],
            lower@ == lower_chars(family@),
            forall|k: int| 0 <= k < i ==> lower_chars(preferred_list()[k]) != lower@,
        decreases n - i,
    {
        let pf = preferred[i];
        proof {
            assert(preferred@[i as int]@ == preferred_list()[i as int]);
        }
        let pf_lower = to_ascii_lowercase(pf);
        if str_eq(pf_lower.as_str(), lower.as_str()) {
            proof {
                assert(lower_chars(preferred_list()[i as int]) == lower@);
            }
            return true;
        }
        proof {
            assert(lower_chars(preferred_list()[i as int]) != lower@);
        }
        i += 1;
    }
    false
}

} // verus!
