//! Terminal colour themes: seven colour roles, six of which a theme has to
//! fill, and the sentinel that leaves the built-in palette alone.

use vstd::prelude::*;
use vstd::string::*;

use crate::text::{
    ascii_hex_digit, chars_of, concat5, is_ascii_hex_digit, lemma_lowered_idempotent,
    lemma_trim_lower_commute, lemma_trimmed_idempotent, lowered, opt_str, opt_text, to_lowered,
    trim_text, trimmed,
};

verus! {

/// The name of the theme without colours.
pub const TERMINAL_DEFAULT_THEME: &'static str = "terminal-default";

/// Where a theme came from; a user's theme shadows a built-in of its name.
#[derive(Clone, Copy, Debug, PartialEq, Eq, Structural)]
pub enum ThemeSource {
    Builtin,
    User,
}

impl ThemeSource {
    pub open spec fn name(self) -> Seq<char> {
        match self {
            ThemeSource::Builtin => "builtin"@,
            ThemeSource::User => "user"@,
        }
    }

    pub fn label(self) -> (r: &'static str)
        ensures
            r@ == self.name(),
    {
        match self {
            ThemeSource::Builtin => "builtin",
            ThemeSource::User => "user",
        }
    }
}

/// A theme. Every colour is `#RRGGBB`. Only `bg` may be absent in a real
/// theme; in the sentinel all seven are.
#[derive(Clone, Debug, PartialEq, Eq)]
pub struct ThemeSpec {
    pub name: String,
    pub source: ThemeSource,
    pub bg: Option<String>,
    pub accent: Option<String>,
    pub bright_fg: Option<String>,
    pub fg: Option<String>,
    pub green: Option<String>,
    pub yellow: Option<String>,
    pub red: Option<String>,
}

/// A theme as plain values.
pub struct ThemeModel {
    pub name: Seq<char>,
    pub source: ThemeSource,
    pub bg: Option<Seq<char>>,
    pub accent: Option<Seq<char>>,
    pub bright_fg: Option<Seq<char>>,
    pub fg: Option<Seq<char>>,
    pub green: Option<Seq<char>>,
    pub yellow: Option<Seq<char>>,
    pub red: Option<Seq<char>>,
}

impl View for ThemeSpec {
    type V = ThemeModel;

    open spec fn view(&self) -> ThemeModel {
        ThemeModel {
            name: self.name@,
            source: self.source,
            bg: opt_text(self.bg),
            accent: opt_text(self.accent),
            bright_fg: opt_text(self.bright_fg),
            fg: opt_text(self.fg),
            green: opt_text(self.green),
            yellow: opt_text(self.yellow),
            red: opt_text(self.red),
        }
    }
}

/// What is wrong with a theme.
#[derive(Clone, Debug, PartialEq, Eq)]
pub enum ThemeError {
    MissingRole { theme: String, role: String },
    BadHex { theme: String, role: String, value: String },
}

/// A theme error as plain values.
pub enum ThemeErrorModel {
    MissingRole { theme: Seq<char>, role: Seq<char> },
    BadHex { theme: Seq<char>, role: Seq<char>, value: Seq<char> },
}

impl View for ThemeError {
    type V = ThemeErrorModel;

    open spec fn view(&self) -> ThemeErrorModel {
        match *self {
            ThemeError::MissingRole { theme, role } => ThemeErrorModel::MissingRole {
                theme: theme@,
                role: role@,
            },
            ThemeError::BadHex { theme, role, value } => ThemeErrorModel::BadHex {
                theme: theme@,
                role: role@,
                value: value@,
            },
        }
    }
}

impl ThemeError {
    /// The sentence that the error is shown as.
    pub fn message(&self) -> (r: String)
        ensures
            r@ == match self@ {
                ThemeErrorModel::MissingRole { theme, role } => "theme `"@ + theme + "`: "@ + role
                    + " is required"@,
                ThemeErrorModel::BadHex { theme, role, value } => "theme `"@ + theme + "`: "@
                    + role + " must be #RRGGBB, got `"@ + value + "`"@,
            },
    {
        match self {
            ThemeError::MissingRole { theme, role } => concat5(
                "theme `",
                theme.as_str(),
                "`: ",
                role.as_str(),
                " is required",
            ),
            ThemeError::BadHex { theme, role, value } => {
                let mut out = concat5(
                    "theme `",
                    theme.as_str(),
                    "`: ",
                    role.as_str(),
                    " must be #RRGGBB, got `",
                );
                out.append(value.as_str());
                out.append("`");
                out
            },
        }
    }
}

// ---------------------------------------------------------------------------
// Colours
// ---------------------------------------------------------------------------

/// The value of a hexadecimal digit.
pub open spec fn hex_value(c: char) -> int {
    if '0' <= c && c <= '9' {
        c as int - '0' as int
    } else if 'a' <= c && c <= 'f' {
        c as int - 'a' as int + 10
    } else {
        c as int - 'A' as int + 10
    }
}

/// Whether a text is `#` and six hexadecimal digits.
pub open spec fn is_hex_colour(s: Seq<char>) -> bool {
    &&& s.len() == 7
    &&& s[0] == '#'
    &&& forall|i: int| 1 <= i < 7 ==> is_ascii_hex_digit(#[trigger] s[i])
}

/// The channel in the two digits from `at` on.
pub open spec fn channel(s: Seq<char>, at: int) -> int {
    hex_value(s[at]) * 16 + hex_value(s[at + 1])
}

fn hex_digit(c: char) -> (r: u8)
    requires
        is_ascii_hex_digit(c),
    ensures
        r == hex_value(c),
        r < 16,
{
    if '0' <= c && c <= '9' {
        c as u8 - 48
    } else if 'a' <= c && c <= 'f' {
        c as u8 - 97 + 10
    } else {
        c as u8 - 65 + 10
    }
}

/// The three channels of `#RRGGBB`; any other text is no colour.
pub fn hex_rgb(value: &str) -> (r: Option<[u8; 3]>)
    ensures
        r is Some <==> is_hex_colour(value@),
        r matches Some(rgb) ==> rgb[0] == channel(value@, 1) && rgb[1] == channel(value@, 3)
            && rgb[2] == channel(value@, 5),
{
    let v = chars_of(value);
    if v.len() != 7 || v[0] != '#' {
        return None;
    }
    let mut i: usize = 1;
    while i < 7
        invariant
            1 <= i <= 7,
            v@.len() == 7,
            v@ == value@,
            forall|k: int| 1 <= k < i ==> is_ascii_hex_digit(#[trigger] v@[k]),
        decreases 7 - i,
    {
        if !ascii_hex_digit(v[i]) {
            return None;
        }
        i = i + 1;
    }
    let red: u8 = hex_digit(v[1]) * 16 + hex_digit(v[2]);
    let green: u8 = hex_digit(v[3]) * 16 + hex_digit(v[4]);
    let blue: u8 = hex_digit(v[5]) * 16 + hex_digit(v[6]);
    Some([red, green, blue])
}

/// A theme name as files and settings agree on it: trimmed and lowercase.
pub fn canonical_theme_name(name: &str) -> (r: String)
    ensures
        r@ == lowered(trimmed(name@)),
        lowered(trimmed(r@)) == r@,
{
    let t = trim_text(name);
    proof {
        canonical_names_are_fixed(name@);
    }
    to_lowered(t.as_str())
}

/// A canonical theme name is its own canonical name.
pub proof fn canonical_names_are_fixed(name: Seq<char>)
    ensures
        lowered(trimmed(lowered(trimmed(name)))) == lowered(trimmed(name)),
{
    lemma_trim_lower_commute(trimmed(name));
    lemma_trimmed_idempotent(name);
    lemma_lowered_idempotent(trimmed(name));
}

// ---------------------------------------------------------------------------
// Themes
// ---------------------------------------------------------------------------

impl ThemeModel {
    /// Whether a theme carries no colour at all.
    pub open spec fn is_sentinel(self) -> bool {
        self.bg is None && self.accent is None && self.bright_fg is None && self.fg is None
            && self.green is None && self.yellow is None && self.red is None
    }

    /// The six roles that a real theme fills, in their order.
    pub open spec fn roles(self) -> Seq<(Seq<char>, Option<Seq<char>>)> {
        seq![
            ("accent"@, self.accent),
            ("bright_fg"@, self.bright_fg),
            ("fg"@, self.fg),
            ("green"@, self.green),
            ("yellow"@, self.yellow),
            ("red"@, self.red),
        ]
    }

    /// What is wrong with a required role, if anything.
    pub open spec fn role_fault(
        self,
        role: Seq<char>,
        value: Option<Seq<char>>,
    ) -> Option<ThemeErrorModel> {
        match value {
            None => Some(ThemeErrorModel::MissingRole { theme: self.name, role }),
            Some(value) => if is_hex_colour(value) {
                None
            } else {
                Some(ThemeErrorModel::BadHex { theme: self.name, role, value })
            },
        }
    }

    /// The first thing wrong with the required roles from `from` on.
    pub open spec fn roles_fault(self, from: int) -> Option<ThemeErrorModel>
        decreases 6 - from,
    {
        if from < 0 || from >= 6 {
            None
        } else {
            let (role, value) = self.roles()[from];
            match self.role_fault(role, value) {
                Some(error) => Some(error),
                None => self.roles_fault(from + 1),
            }
        }
    }

    /// What is wrong with a theme that is neither the sentinel nor complete.
    pub open spec fn fault(self) -> Option<ThemeErrorModel> {
        if self.is_sentinel() {
            None
        } else {
            match self.roles_fault(0) {
                Some(error) => Some(error),
                None => match self.bg {
                    Some(bg) => self.role_fault("bg"@, Some(bg)),
                    None => None,
                },
            }
        }
    }
}

fn as_deref(o: &Option<String>) -> (r: Option<&str>)
    ensures
        opt_str(r) == opt_text(*o),
{
    match o {
        Some(s) => Some(s.as_str()),
        None => None,
    }
}

/// A list of roles and their values, as plain values.
pub open spec fn role_views(v: Seq<(&'static str, Option<&str>)>) -> Seq<
    (Seq<char>, Option<Seq<char>>),
> {
    Seq::new(v.len(), |i: int| (v[i].0@, opt_str(v[i].1)))
}

impl ThemeSpec {
    /// The theme without colours.
    pub fn terminal_default() -> (r: Self)
        ensures
            r@ == (ThemeModel {
                name: "terminal-default"@,
                source: ThemeSource::Builtin,
                bg: None,
                accent: None,
                bright_fg: None,
                fg: None,
                green: None,
                yellow: None,
                red: None,
            }),
    {
        ThemeSpec {
            name: "terminal-default".to_owned(),
            source: ThemeSource::Builtin,
            bg: None,
            accent: None,
            bright_fg: None,
            fg: None,
            green: None,
            yellow: None,
            red: None,
        }
    }

    /// Whether the theme carries no colour, so that the built-in palette
    /// applies.
    pub fn is_terminal_default(&self) -> (r: bool)
        ensures
            r == self@.is_sentinel(),
    {
        self.bg.is_none() && self.accent.is_none() && self.bright_fg.is_none() && self.fg.is_none()
            && self.green.is_none() && self.yellow.is_none() && self.red.is_none()
    }

    /// The required roles with their values, in the order that every client
    /// shows them in.
    pub fn roles(&self) -> (r: [(&'static str, Option<&str>); 6])
        ensures
            role_views(r@) == self@.roles(),
    {
        let r = [
            ("accent", as_deref(&self.accent)),
            ("bright_fg", as_deref(&self.bright_fg)),
            ("fg", as_deref(&self.fg)),
            ("green", as_deref(&self.green)),
            ("yellow", as_deref(&self.yellow)),
            ("red", as_deref(&self.red)),
        ];
        assert(role_views(r@) =~= self@.roles());
        r
    }

    /// All seven colours, the background first.
    pub fn columns(&self) -> (r: [(&'static str, Option<&str>); 7])
        ensures
            role_views(r@) == seq![("bg"@, self@.bg)] + self@.roles(),
    {
        let r = [
            ("bg", as_deref(&self.bg)),
            ("accent", as_deref(&self.accent)),
            ("bright_fg", as_deref(&self.bright_fg)),
            ("fg", as_deref(&self.fg)),
            ("green", as_deref(&self.green)),
            ("yellow", as_deref(&self.yellow)),
            ("red", as_deref(&self.red)),
        ];
        assert(role_views(r@) =~= seq![("bg"@, self@.bg)] + self@.roles());
        r
    }

    fn check_role(&self, role: &str, value: &Option<String>) -> (r: Result<(), ThemeError>)
        ensures
            match r {
                Ok(_) => self@.role_fault(role@, opt_text(*value)) is None,
                Err(error) => self@.role_fault(role@, opt_text(*value)) == Some(error@),
            },
    {
        match value {
            None => Err(
                ThemeError::MissingRole { theme: self.name.clone(), role: role.to_owned() },
            ),
            Some(value) => self.check_hex(role, value.as_str()),
        }
    }

    fn check_hex(&self, role: &str, value: &str) -> (r: Result<(), ThemeError>)
        ensures
            match r {
                Ok(_) => is_hex_colour(value@),
                Err(error) => !is_hex_colour(value@) && error@ == (ThemeErrorModel::BadHex {
                    theme: self@.name,
                    role: role@,
                    value: value@,
                }),
            },
    {
        if hex_rgb(value).is_some() {
            return Ok(());
        }
        Err(
            ThemeError::BadHex {
                theme: self.name.clone(),
                role: role.to_owned(),
                value: value.to_owned(),
            },
        )
    }

    /// Rejects a theme that is neither the sentinel nor complete.
    pub fn validate(&self) -> (r: Result<(), ThemeError>)
        ensures
            match r {
                Ok(_) => self@.fault() is None,
                Err(error) => self@.fault() == Some(error@),
            },
    {
        if self.is_terminal_default() {
            return Ok(());
        }
        proof {
            reveal_with_fuel(ThemeModel::roles_fault, 7);
        }
        if let Err(error) = self.check_role("accent", &self.accent) {
            return Err(error);
        }
        if let Err(error) = self.check_role("bright_fg", &self.bright_fg) {
            return Err(error);
        }
        if let Err(error) = self.check_role("fg", &self.fg) {
            return Err(error);
        }
        if let Err(error) = self.check_role("green", &self.green) {
            return Err(error);
        }
        if let Err(error) = self.check_role("yellow", &self.yellow) {
            return Err(error);
        }
        if let Err(error) = self.check_role("red", &self.red) {
            return Err(error);
        }
        match &self.bg {
            Some(bg) => self.check_hex("bg", bg.as_str()),
            None => Ok(()),
        }
    }
}

/// A valid theme is the sentinel, or fills every required role with a colour
/// and has a colour for a background if it has one at all.
pub proof fn valid_themes_are_complete(theme: ThemeModel)
    ensures
        theme.fault() is None <==> theme.is_sentinel() || (theme.accent is Some && is_hex_colour(
            theme.accent->0,
        ) && theme.bright_fg is Some && is_hex_colour(theme.bright_fg->0) && theme.fg is Some
            && is_hex_colour(theme.fg->0) && theme.green is Some && is_hex_colour(theme.green->0)
            && theme.yellow is Some && is_hex_colour(theme.yellow->0) && theme.red is Some
            && is_hex_colour(theme.red->0) && (theme.bg is Some ==> is_hex_colour(theme.bg->0))),
{
    reveal_with_fuel(ThemeModel::roles_fault, 7);
}

/// A colour is a hash sign and six hexadecimal digits, of either case, and
/// nothing else.
pub proof fn colours_are_a_hash_and_six_digits(s: Seq<char>)
    ensures
        is_hex_colour(s) <==> s.len() == 7 && s[0] == '#' && (forall|i: int|
            0 < i < s.len() ==> ('0' <= #[trigger] s[i] && s[i] <= '9') || ('a' <= s[i] && s[i]
                <= 'f') || ('A' <= s[i] && s[i] <= 'F')),
{
    if is_hex_colour(s) {
        assert forall|i: int| 0 < i < s.len() implies ('0' <= #[trigger] s[i] && s[i] <= '9') || (
        'a' <= s[i] && s[i] <= 'f') || ('A' <= s[i] && s[i] <= 'F') by {
            assert(is_ascii_hex_digit(s[i]));
        }
    }
}

/// Two digits make a channel, the first one the sixteens, and each digit means
/// the same in either case.
pub proof fn channels_are_two_digits(s: Seq<char>, at: int)
    requires
        is_hex_colour(s),
        1 <= at < 6,
    ensures
        0 <= channel(s, at) <= 255,
        channel(s, at) / 16 == hex_value(s[at]),
        channel(s, at) % 16 == hex_value(s[at + 1]),
        ({
            let c = s[at];
            &&& '0' <= c && c <= '9' ==> hex_value(c) == c as u32 - 48
            &&& 'a' <= c && c <= 'f' ==> hex_value(c) == c as u32 - 97 + 10
            &&& 'A' <= c && c <= 'F' ==> hex_value(c) == c as u32 - 65 + 10
        }),
{
    assert(is_ascii_hex_digit(s[at]) && is_ascii_hex_digit(s[at + 1]));
}

/// The first required role that is absent or no colour is what a theme is
/// refused for, in the order accent, bright foreground, foreground, green,
/// yellow, red; a background that is no colour comes last.
pub proof fn the_first_bad_role_is_told(theme: ThemeModel, n: int)
    requires
        !theme.is_sentinel(),
        0 <= n < 7,
    ensures
        ({
            let roles = seq![
                "accent"@,
                "bright_fg"@,
                "fg"@,
                "green"@,
                "yellow"@,
                "red"@,
                "bg"@,
            ];
            let values = seq![
                theme.accent,
                theme.bright_fg,
                theme.fg,
                theme.green,
                theme.yellow,
                theme.red,
                theme.bg,
            ];
            (forall|i: int|
                0 <= i < n ==> (#[trigger] values[i]) is Some && is_hex_colour(values[i]->0))
                ==> match values[n] {
                Some(value) => !is_hex_colour(value) ==> theme.fault() == Some(
                    ThemeErrorModel::BadHex { theme: theme.name, role: roles[n], value },
                ),
                None => n < 6 ==> theme.fault() == Some(
                    ThemeErrorModel::MissingRole { theme: theme.name, role: roles[n] },
                ),
            }
        }),
{
    reveal_with_fuel(ThemeModel::roles_fault, 7);
    let values = seq![
        theme.accent,
        theme.bright_fg,
        theme.fg,
        theme.green,
        theme.yellow,
        theme.red,
        theme.bg,
    ];
    if forall|i: int| 0 <= i < n ==> (#[trigger] values[i]) is Some && is_hex_colour(values[i]->0) {
        assert(n > 0 ==> values[0] is Some);
        assert(n > 1 ==> values[1] is Some);
        assert(n > 2 ==> values[2] is Some);
        assert(n > 3 ==> values[3] is Some);
        assert(n > 4 ==> values[4] is Some);
        assert(n > 5 ==> values[5] is Some);
    }
}

/// The theme without colours is the one in which every role is absent, the
/// background too; it has no fault.
pub proof fn only_the_empty_theme_is_the_sentinel(theme: ThemeModel)
    ensures
        theme.is_sentinel() <==> theme.bg is None && theme.accent is None && theme.bright_fg is None
            && theme.fg is None && theme.green is None && theme.yellow is None && theme.red is None,
        theme.is_sentinel() ==> theme.fault() is None,
{
}

/// Colours are read and themes judged as is told of them.
pub proof fn themes_are_judged_as_told()
    ensures
        forall|value: &str, answer: Option<[u8; 3]>|
            #[trigger] call_ensures(hex_rgb, (value,), answer) ==> {
                &&& answer is Some <==> is_hex_colour(value@)
                &&& answer matches Some(rgb) ==> rgb[0] == channel(value@, 1) && rgb[1] == channel(value@, 3)
                    && rgb[2] == channel(value@, 5)
            },
        forall|this: &ThemeSpec, answer: Result<(), ThemeError>|
            #[trigger] call_ensures(ThemeSpec::validate, (this,), answer) ==> {
                &&& match answer {
                    Ok(_) => this@.fault() is None,
                    Err(error) => this@.fault() == Some(error@),
                }
            },
{
}

} // verus!
