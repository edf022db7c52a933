//! How much interim transcript detail the interface shows.

use vstd::prelude::*;

use crate::text;

verus! {

/// Controls how much interim transcript detail is shown in the TUI.
#[derive(Clone, Copy, PartialEq, Eq, Structural, Debug)]
pub enum Verbosity {
    /// Most compact view: dims commentary and suppresses low-signal tool chatter.
    Minimal,
    /// Friendly default view: shows interim items without aggressive suppression.
    Simple,
}

impl Default for Verbosity {
    /// The most compact view.
    fn default() -> (r: Self)
        ensures
            r == Verbosity::Minimal,
    {
        Verbosity::Minimal
    }
}

/// The verbosity that a configuration value names.
///
/// Surrounding whitespace does not count. `default` and `normal` are older
/// names of the simple view.
pub open spec fn parsed_verbosity(value: Seq<char>) -> Option<Verbosity> {
    let v = text::trim(value);
    if v == "minimal"@ {
        Some(Verbosity::Minimal)
    } else if v == "simple"@ || v == "default"@ || v == "normal"@ {
        Some(Verbosity::Simple)
    } else {
        None
    }
}

impl Verbosity {
    /// The name shown to the user.
    pub open spec fn label_v(self) -> Seq<char> {
        match self {
            Verbosity::Minimal => "Minimal"@,
            Verbosity::Simple => "Simple"@,
        }
    }

    /// The name shown to the user.
    pub fn label(self) -> (s: &'static str)
        ensures
            s@ == self.label_v(),
    {
        match self {
            Verbosity::Minimal => "Minimal",
            Verbosity::Simple => "Simple",
        }
    }

    /// What the view does, in one sentence.
    pub open spec fn description_v(self) -> Seq<char> {
        match self {
            Verbosity::Minimal => "Dim commentary and hide tool chatter"@,
            Verbosity::Simple => "Show interim items normally"@,
        }
    }

    /// What the view does, in one sentence.
    pub fn description(self) -> (s: &'static str)
        ensures
            s@ == self.description_v(),
    {
        match self {
            Verbosity::Minimal => "Dim commentary and hide tool chatter",
            Verbosity::Simple => "Show interim items normally",
        }
    }

    /// The value that stands for the view in the configuration file.
    pub open spec fn config_value_v(self) -> Seq<char> {
        match self {
            Verbosity::Minimal => "minimal"@,
            Verbosity::Simple => "simple"@,
        }
    }

    /// The value that stands for the view in the configuration file.
    pub fn config_value(self) -> (s: &'static str)
        ensures
            s@ == self.config_value_v(),
    {
        match self {
            Verbosity::Minimal => "minimal",
            Verbosity::Simple => "simple",
        }
    }

    /// The verbosity that `value` names, if it names one.
    pub fn parse_config_value(value: &str) -> (r: Option<Self>)
        ensures
            r == parsed_verbosity(value@),
    {
        let v = value.trim();
        if text::same(v, "minimal") {
            Some(Verbosity::Minimal)
        } else if text::same(v, "simple") || text::same(v, "default") || text::same(v, "normal") {
            Some(Verbosity::Simple)
        } else {
            None
        }
    }
}

/// Reading back a written configuration value gives the same verbosity.
pub proof fn law_config_value_round_trips(verbosity: Verbosity)
    ensures
        parsed_verbosity(verbosity.config_value_v()) == Some(verbosity),
{
    reveal_strlit("minimal");
    reveal_strlit("simple");
    let v = verbosity.config_value_v();
    assert(v.len() > 0 && !text::is_whitespace(v[0]) && !text::is_whitespace(v.last()));
    assert(text::trim(v) == v);
    assert("simple"@.len() != "minimal"@.len());
}

/// A configuration value names the compact view exactly where it is `minimal`, and the
/// simple view exactly where it is `simple` or one of its older names; whitespace round
/// it does not count.
pub proof fn law_config_values(value: Seq<char>)
    ensures
        parsed_verbosity(value) == Some(Verbosity::Minimal) <==> text::trim(value) == "minimal"@,
        parsed_verbosity(value) == Some(Verbosity::Simple) <==> (text::trim(value) == "simple"@
            || text::trim(value) == "default"@ || text::trim(value) == "normal"@),
        parsed_verbosity(text::trim(value)) == parsed_verbosity(value),
{
    reveal_strlit("minimal");
    reveal_strlit("simple");
    reveal_strlit("default");
    reveal_strlit("normal");
    assert("minimal"@.len() == 7 && "simple"@.len() == 6 && "default"@[0] == 'd' && "normal"@[0]
        == 'n' && "minimal"@[0] == 'm');
    text::lemma_trim_is_stable(value);
}

/// A view is shown under the name that the configuration has for it, with a capital
/// letter; only the compact view speaks of hiding.
pub proof fn law_label_is_the_configured_name(verbosity: Verbosity)
    ensures
        verbosity.label_v().skip(1) == verbosity.config_value_v().skip(1),
        verbosity.label_v()[0] as u32 + 32 == verbosity.config_value_v()[0] as u32,
        verbosity.description_v() == "Dim commentary and hide tool chatter"@ <==> verbosity
            == Verbosity::Minimal,
        verbosity.description_v() == "Show interim items normally"@ <==> verbosity
            == Verbosity::Simple,
{
    reveal_strlit("minimal");
    reveal_strlit("simple");
    reveal_strlit("Minimal");
    reveal_strlit("Simple");
    reveal_strlit("Dim commentary and hide tool chatter");
    reveal_strlit("Show interim items normally");
    assert("Dim commentary and hide tool chatter"@.len() != "Show interim items normally"@.len());
    assert(verbosity.label_v().skip(1) =~= verbosity.config_value_v().skip(1));
}

} // verus!
