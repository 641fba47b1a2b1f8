//! Whether the terminal shows colour, decided from what the process
//! environment says about it.
use vstd::prelude::*;

use crate::argparse::parser::ColorMode;
use crate::text::{chars_equal, contains, find_exec, to_chars};

verus! {

/// What the process environment tells about logging and about the terminal
/// that standard output goes to, as read by the caller.
pub struct Environment {
    /// `VERBOSE_LOG` is set (to valid Unicode).
    pub verbose_log: bool,
    /// `NO_COLOR` is set.
    pub no_color: bool,
    /// Standard output is a terminal.
    pub stdout_is_terminal: bool,
    /// `COLORTERM` is set.
    pub colorterm: bool,
    /// The value of `TERM`, when it is set to valid Unicode.
    pub term: Option<String>,
    /// The program runs on Windows and `WT_SESSION` is set.
    pub windows_terminal: bool,
}

/// The Unicode lower-case mapping of `s`, as `str::to_lowercase` computes it.
pub uninterp spec fn lowercase(s: Seq<char>) -> Seq<char>;

/// Calls `str::to_lowercase`. Its result is named `lowercase` of the
/// argument's characters; nothing more is stated of the mapping.
#[verifier::external_body]
fn to_lowercase(s: &str) -> (r: String)
    ensures
        r@ == lowercase(s@),
{
    s.to_lowercase()
}

/// What a lower-cased `TERM` value says about colour: `Some(false)` for a
/// dumb terminal, `Some(true)` for one that names colour, 256 colours, xterm
/// or ANSI, and `None` when it says nothing.
pub open spec fn term_verdict(term_lower: Seq<char>) -> Option<bool> {
    if term_lower == seq!['d', 'u', 'm', 'b'] {
        Some(false)
    } else if contains(term_lower, seq!['c', 'o', 'l', 'o', 'r']) || contains(
        term_lower,
        seq!['2', '5', '6'],
    ) || contains(term_lower, seq!['x', 't', 'e', 'r', 'm']) || contains(
        term_lower,
        seq!['a', 'n', 's', 'i'],
    ) {
        Some(true)
    } else {
        None
    }
}

/// Whether ANSI colour is supported, as decided from the environment.
pub open spec fn colors_supported(env: Environment) -> bool {
    if env.no_color {
        false
    } else if !env.stdout_is_terminal {
        false
    } else if env.colorterm {
        true
    } else {
        match env.term {
            Some(t) => match term_verdict(lowercase(t@)) {
                Some(v) => v,
                None => env.windows_terminal,
            },
            None => env.windows_terminal,
        }
    }
}

/// The colour mode that the environment supports.
pub open spec fn color_support(env: Environment) -> ColorMode {
    if colors_supported(env) {
        ColorMode::Color256
    } else {
        ColorMode::NoColor
    }
}

/// Reads a lower-cased `TERM` value.
pub fn term_color_verdict(term_lower: &str) -> (r: Option<bool>)
    ensures
        r == term_verdict(term_lower@),
{
    let t = to_chars(term_lower);
    if chars_equal(&t, &vec!['d', 'u', 'm', 'b']) {
        return Some(false);
    }
    let hit = find_exec(&t, &vec!['c', 'o', 'l', 'o', 'r']).is_some() || find_exec(
        &t,
        &vec!['2', '5', '6'],
    ).is_some() || find_exec(&t, &vec!['x', 't', 'e', 'r', 'm']).is_some() || find_exec(
        &t,
        &vec!['a', 'n', 's', 'i'],
    ).is_some();
    if hit {
        Some(true)
    } else {
        None
    }
}

/// The colour mode that the environment supports: 256 colours or none.
pub fn get_color_support(env: &Environment) -> (m: ColorMode)
    ensures
        m == color_support(*env),
{
    if ansi_supported(env) {
        ColorMode::Color256
    } else {
        ColorMode::NoColor
    }
}

/// Whether ANSI colour is supported: `NO_COLOR` and a non-terminal output
/// rule it out, `COLORTERM` rules it in, then `TERM` decides, and last the
/// Windows Terminal.
pub fn ansi_supported(env: &Environment) -> (r: bool)
    ensures
        r == colors_supported(*env),
{
    if env.no_color {
        return false;
    }
    if !env.stdout_is_terminal {
        return false;
    }
    if env.colorterm {
        return true;
    }
    if let Some(term) = &env.term {
        let lower = to_lowercase(term.as_str());
        match term_color_verdict(lower.as_str()) {
            Some(v) => {
                return v;
            },
            None => {},
        }
    }
    env.windows_terminal
}

/// With `NO_COLOR` set, or with standard output not a terminal, no colour
/// is used, whatever else the environment says.
pub proof fn lemma_no_color_wins(env: Environment)
    requires
        env.no_color || !env.stdout_is_terminal,
    ensures
        color_support(env) == ColorMode::NoColor,
{
}

/// On a terminal, with `NO_COLOR` and `COLORTERM` unset, a `TERM` value that
/// is unset or says nothing about colour leaves the decision to Windows
/// Terminal: colour is used exactly when running in it.
pub proof fn lemma_windows_terminal_decides(env: Environment)
    requires
        !env.no_color,
        env.stdout_is_terminal,
        !env.colorterm,
        env.term matches Some(t) ==> term_verdict(lowercase(t@)) is None,
    ensures
        colors_supported(env) == env.windows_terminal,
{
}

/// On a terminal, with `NO_COLOR` unset, `COLORTERM` turns colour on.
pub proof fn lemma_colorterm_turns_color_on(env: Environment)
    requires
        !env.no_color,
        env.stdout_is_terminal,
        env.colorterm,
    ensures
        colors_supported(env),
{
}

/// On a terminal, with `NO_COLOR` and `COLORTERM` unset, a `TERM` of `dumb`
/// turns colour off and one naming `xterm` turns it on, whatever the
/// Windows Terminal says.
pub proof fn lemma_term_decides(env: Environment, t: String)
    requires
        !env.no_color,
        env.stdout_is_terminal,
        !env.colorterm,
        env.term == Some(t),
    ensures
        lowercase(t@) == seq!['d', 'u', 'm', 'b'] ==> !colors_supported(env),
        contains(lowercase(t@), seq!['x', 't', 'e', 'r', 'm']) ==> colors_supported(env),
{
}

} // verus!
