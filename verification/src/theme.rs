//! Theme engine: the CSS variable contract, themes as ordered variable maps,
//! and the built-in palettes. Reading and writing theme files is the host's
//! job.

use vstd::prelude::*;

use crate::keyed::{
    as_map, get_entry, keys_sorted, lemma_text_pairs, pairs_view, text_pairs, upsert_entry,
};
use crate::text::{lex_lt, text_eq, text_of};

verus! {

/// The OpenKite CSS variable contract, in declaration order.
pub const CSS_VARS: [&'static str; 28] = [
    "--bg-0",
    "--bg-1",
    "--bg-2",
    "--border",
    "--fg-0",
    "--fg-1",
    "--fg-2",
    "--accent",
    "--green",
    "--yellow",
    "--red",
    "--violet",
    "--term-black",
    "--term-red",
    "--term-green",
    "--term-yellow",
    "--term-blue",
    "--term-magenta",
    "--term-cyan",
    "--term-white",
    "--term-bright-black",
    "--term-bright-red",
    "--term-bright-green",
    "--term-bright-yellow",
    "--term-bright-blue",
    "--term-bright-magenta",
    "--term-bright-cyan",
    "--term-bright-white",
];

/// Errors produced while importing or loading a theme.
#[derive(Debug)]
pub enum ThemeError {
    /// The input was not valid JSON (or not a JSON object of strings).
    MalformedJson,
    /// The input contained a Zed key with no OpenKite mapping.
    UnknownKey(String),
    /// A filesystem error while saving or loading.
    Io(String),
}

/// The user-facing text of each theme error.
pub open spec fn theme_error_text(e: ThemeError) -> Seq<char> {
    match e {
        ThemeError::MalformedJson => "theme input is not valid JSON"@,
        ThemeError::UnknownKey(key) => "unknown Zed theme key: "@ + key@,
        ThemeError::Io(err) => "theme I/O error: "@ + err@,
    }
}

impl ThemeError {
    /// The user-facing text of this error.
    pub fn message(&self) -> (r: String)
        ensures
            r@ == theme_error_text(*self),
    {
        match self {
            ThemeError::MalformedJson => String::from_str("theme input is not valid JSON"),
            ThemeError::UnknownKey(key) => {
                let mut r = String::from_str("unknown Zed theme key: ");
                r.append(key.as_str());
                r
            },
            ThemeError::Io(err) => {
                let mut r = String::from_str("theme I/O error: ");
                r.append(err.as_str());
                r
            },
        }
    }
}

/// A resolved theme: CSS variable names mapped to values, kept in ascending
/// order of the names.
#[derive(Debug, PartialEq, Eq)]
pub struct KiteTheme {
    vars: Vec<(String, String)>,
}

impl View for KiteTheme {
    type V = Map<Seq<char>, Seq<char>>;

    open spec fn view(&self) -> Map<Seq<char>, Seq<char>> {
        as_map(self.entries())
    }
}

impl Clone for KiteTheme {
    fn clone(&self) -> (r: Self)
        ensures
            r.entries() == self.entries(),
            r@ == self@,
    {
        proof {
            use_type_invariant(self);
        }
        let mut vars: Vec<(String, String)> = Vec::new();
        let mut i: usize = 0;
        while i < self.vars.len()
            invariant
                i <= self.vars@.len(),
                vars@.len() == i,
                forall|k: int|
                    0 <= k < i ==> #[trigger] vars@[k].0@ == self.vars@[k].0@ && vars@[k].1@
                        == self.vars@[k].1@,
            decreases self.vars@.len() - i,
        {
            let entry = &self.vars[i];
            vars.push((entry.0.clone(), entry.1.clone()));
            i = i + 1;
        }
        proof {
            assert(text_pairs(pairs_view(vars@)) =~= self.entries());
        }
        KiteTheme { vars }
    }
}

impl Default for KiteTheme {
    fn default() -> (r: Self)
        ensures
            r.wf(),
            r@ == Map::<Seq<char>, Seq<char>>::empty(),
    {
        KiteTheme::new()
    }
}

impl KiteTheme {
    /// The variables in ascending order of their names.
    pub closed spec fn entries(&self) -> Seq<(Seq<char>, Seq<char>)> {
        text_pairs(pairs_view(self.vars@))
    }

    /// No name occurs twice, and names ascend; every theme keeps this.
    #[verifier::type_invariant]
    pub open spec fn wf(&self) -> bool {
        keys_sorted(self.entries())
    }

    /// An empty theme.
    pub fn new() -> (r: Self)
        ensures
            r.wf(),
            r@ == Map::<Seq<char>, Seq<char>>::empty(),
            r.entries().len() == 0,
    {
        let r = KiteTheme { vars: Vec::new() };
        assert(r.entries() =~= Seq::<(Seq<char>, Seq<char>)>::empty());
        r
    }

    /// Set a CSS variable, returning the theme for chaining.
    pub fn with_var(self, key: &str, value: &str) -> (r: Self)
        ensures
            r.wf(),
            r@ == self@.insert(key@, value@),
    {
        proof {
            use_type_invariant(&self);
        }
        let mut vars = self.vars;
        proof {
            lemma_text_pairs(pairs_view(vars@));
        }
        upsert_entry(&mut vars, text_of(key), text_of(value));
        let r = KiteTheme { vars };
        proof {
            lemma_text_pairs(pairs_view(r.vars@));
            assert(r@ =~= self@.insert(key@, value@));
        }
        r
    }

    /// Read a CSS variable, if set.
    pub fn get(&self, key: &str) -> (r: Option<&str>)
        ensures
            self.wf(),
            r is Some <==> self@.contains_key(key@),
            r matches Some(v) ==> v@ == self@[key@],
    {
        proof {
            use_type_invariant(self);
            lemma_text_pairs(pairs_view(self.vars@));
        }
        match get_entry(&self.vars, key) {
            Some(v) => Some(v.as_str()),
            None => None,
        }
    }

    /// All variables, ordered by name.
    pub fn vars(&self) -> (r: &Vec<(String, String)>)
        ensures
            text_pairs(pairs_view(r@)) == self.entries(),
    {
        &self.vars
    }
}

/// The shared 16-colour terminal palette (One Dark-inspired) laid over `m`.
pub open spec fn term_vars(m: Map<Seq<char>, Seq<char>>) -> Map<Seq<char>, Seq<char>> {
    m
        .insert("--term-black"@, "#282c34"@)
        .insert("--term-red"@, "#e06c75"@)
        .insert("--term-green"@, "#98c379"@)
        .insert("--term-yellow"@, "#e5c07b"@)
        .insert("--term-blue"@, "#61afef"@)
        .insert("--term-magenta"@, "#c678dd"@)
        .insert("--term-cyan"@, "#56b6c2"@)
        .insert("--term-white"@, "#abb2bf"@)
        .insert("--term-bright-black"@, "#5c6370"@)
        .insert("--term-bright-red"@, "#e06c75"@)
        .insert("--term-bright-green"@, "#98c379"@)
        .insert("--term-bright-yellow"@, "#e5c07b"@)
        .insert("--term-bright-blue"@, "#61afef"@)
        .insert("--term-bright-magenta"@, "#c678dd"@)
        .insert("--term-bright-cyan"@, "#56b6c2"@)
        .insert("--term-bright-white"@, "#ffffff"@)
}

/// Apply the shared terminal palette to a theme.
pub fn with_term(theme: KiteTheme) -> (r: KiteTheme)
    ensures
        r.wf(),
        r@ == term_vars(theme@),
{
    theme
        .with_var("--term-black", "#282c34")
        .with_var("--term-red", "#e06c75")
        .with_var("--term-green", "#98c379")
        .with_var("--term-yellow", "#e5c07b")
        .with_var("--term-blue", "#61afef")
        .with_var("--term-magenta", "#c678dd")
        .with_var("--term-cyan", "#56b6c2")
        .with_var("--term-white", "#abb2bf")
        .with_var("--term-bright-black", "#5c6370")
        .with_var("--term-bright-red", "#e06c75")
        .with_var("--term-bright-green", "#98c379")
        .with_var("--term-bright-yellow", "#e5c07b")
        .with_var("--term-bright-blue", "#61afef")
        .with_var("--term-bright-magenta", "#c678dd")
        .with_var("--term-bright-cyan", "#56b6c2")
        .with_var("--term-bright-white", "#ffffff")
}

/// The variables of the gpui_light theme.
pub open spec fn gpui_light_vars() -> Map<Seq<char>, Seq<char>> {
    term_vars(
        Map::empty()
            .insert("--bg-0"@, "#f5f7fa"@)
            .insert("--bg-1"@, "#ffffff"@)
            .insert("--bg-2"@, "#f3f4f6"@)
            .insert("--border"@, "#e2e4e9"@)
            .insert("--fg-0"@, "#1e2024"@)
            .insert("--fg-1"@, "#383a42"@)
            .insert("--fg-2"@, "#6b7280"@)
            .insert("--accent"@, "#4d8ce8"@)
            .insert("--green"@, "#4d9a5e"@)
            .insert("--yellow"@, "#c4841d"@)
            .insert("--red"@, "#e05252"@)
            .insert("--violet"@, "#8b5cf6"@),
    )
}

/// GPUI Light — a bright, low-contrast theme.
pub fn gpui_light() -> (r: KiteTheme)
    ensures
        r.wf(),
        r@ == gpui_light_vars(),
{
    with_term(
        KiteTheme::new()
            .with_var("--bg-0", "#f5f7fa")
            .with_var("--bg-1", "#ffffff")
            .with_var("--bg-2", "#f3f4f6")
            .with_var("--border", "#e2e4e9")
            .with_var("--fg-0", "#1e2024")
            .with_var("--fg-1", "#383a42")
            .with_var("--fg-2", "#6b7280")
            .with_var("--accent", "#4d8ce8")
            .with_var("--green", "#4d9a5e")
            .with_var("--yellow", "#c4841d")
            .with_var("--red", "#e05252")
            .with_var("--violet", "#8b5cf6"),
    )
}

/// The variables of the gpui_dark theme.
pub open spec fn gpui_dark_vars() -> Map<Seq<char>, Seq<char>> {
    term_vars(
        Map::empty()
            .insert("--bg-0"@, "#1e2024"@)
            .insert("--bg-1"@, "#25272c"@)
            .insert("--bg-2"@, "#2d3036"@)
            .insert("--border"@, "#3a3d44"@)
            .insert("--fg-0"@, "#f5f7fa"@)
            .insert("--fg-1"@, "#c8ccd4"@)
            .insert("--fg-2"@, "#8b909a"@)
            .insert("--accent"@, "#5b9bf0"@)
            .insert("--green"@, "#4d9a5e"@)
            .insert("--yellow"@, "#d4a017"@)
            .insert("--red"@, "#e05252"@)
            .insert("--violet"@, "#9d7bf6"@),
    )
}

/// GPUI Dark — a neutral dark theme.
pub fn gpui_dark() -> (r: KiteTheme)
    ensures
        r.wf(),
        r@ == gpui_dark_vars(),
{
    with_term(
        KiteTheme::new()
            .with_var("--bg-0", "#1e2024")
            .with_var("--bg-1", "#25272c")
            .with_var("--bg-2", "#2d3036")
            .with_var("--border", "#3a3d44")
            .with_var("--fg-0", "#f5f7fa")
            .with_var("--fg-1", "#c8ccd4")
            .with_var("--fg-2", "#8b909a")
            .with_var("--accent", "#5b9bf0")
            .with_var("--green", "#4d9a5e")
            .with_var("--yellow", "#d4a017")
            .with_var("--red", "#e05252")
            .with_var("--violet", "#9d7bf6"),
    )
}

/// The variables of the catppuccin_mocha theme.
pub open spec fn catppuccin_mocha_vars() -> Map<Seq<char>, Seq<char>> {
    term_vars(
        Map::empty()
            .insert("--bg-0"@, "#1e1e2e"@)
            .insert("--bg-1"@, "#181825"@)
            .insert("--bg-2"@, "#313244"@)
            .insert("--border"@, "#45475a"@)
            .insert("--fg-0"@, "#cdd6f4"@)
            .insert("--fg-1"@, "#a6adc8"@)
            .insert("--fg-2"@, "#6c7086"@)
            .insert("--accent"@, "#89b4fa"@)
            .insert("--green"@, "#a6e3a1"@)
            .insert("--yellow"@, "#f9e2af"@)
            .insert("--red"@, "#f38ba8"@)
            .insert("--violet"@, "#cba6f7"@),
    )
}

/// Catppuccin Mocha — a warm pastel dark theme.
pub fn catppuccin_mocha() -> (r: KiteTheme)
    ensures
        r.wf(),
        r@ == catppuccin_mocha_vars(),
{
    with_term(
        KiteTheme::new()
            .with_var("--bg-0", "#1e1e2e")
            .with_var("--bg-1", "#181825")
            .with_var("--bg-2", "#313244")
            .with_var("--border", "#45475a")
            .with_var("--fg-0", "#cdd6f4")
            .with_var("--fg-1", "#a6adc8")
            .with_var("--fg-2", "#6c7086")
            .with_var("--accent", "#89b4fa")
            .with_var("--green", "#a6e3a1")
            .with_var("--yellow", "#f9e2af")
            .with_var("--red", "#f38ba8")
            .with_var("--violet", "#cba6f7"),
    )
}

/// The variables of the tokyo_night theme.
pub open spec fn tokyo_night_vars() -> Map<Seq<char>, Seq<char>> {
    term_vars(
        Map::empty()
            .insert("--bg-0"@, "#1a1b26"@)
            .insert("--bg-1"@, "#16161e"@)
            .insert("--bg-2"@, "#24283b"@)
            .insert("--border"@, "#414868"@)
            .insert("--fg-0"@, "#c0caf5"@)
            .insert("--fg-1"@, "#a9b1d6"@)
            .insert("--fg-2"@, "#565f89"@)
            .insert("--accent"@, "#7aa2f7"@)
            .insert("--green"@, "#9ece6a"@)
            .insert("--yellow"@, "#e0af68"@)
            .insert("--red"@, "#f7768e"@)
            .insert("--violet"@, "#bb9af7"@),
    )
}

/// Tokyo Night — a cool blue-dark theme.
pub fn tokyo_night() -> (r: KiteTheme)
    ensures
        r.wf(),
        r@ == tokyo_night_vars(),
{
    with_term(
        KiteTheme::new()
            .with_var("--bg-0", "#1a1b26")
            .with_var("--bg-1", "#16161e")
            .with_var("--bg-2", "#24283b")
            .with_var("--border", "#414868")
            .with_var("--fg-0", "#c0caf5")
            .with_var("--fg-1", "#a9b1d6")
            .with_var("--fg-2", "#565f89")
            .with_var("--accent", "#7aa2f7")
            .with_var("--green", "#9ece6a")
            .with_var("--yellow", "#e0af68")
            .with_var("--red", "#f7768e")
            .with_var("--violet", "#bb9af7"),
    )
}

/// The variables of the rose_pine theme.
pub open spec fn rose_pine_vars() -> Map<Seq<char>, Seq<char>> {
    term_vars(
        Map::empty()
            .insert("--bg-0"@, "#191724"@)
            .insert("--bg-1"@, "#1f1d2e"@)
            .insert("--bg-2"@, "#26233a"@)
            .insert("--border"@, "#403d52"@)
            .insert("--fg-0"@, "#e0def4"@)
            .insert("--fg-1"@, "#908caa"@)
            .insert("--fg-2"@, "#6e6a86"@)
            .insert("--accent"@, "#c4a7e7"@)
            .insert("--green"@, "#31748f"@)
            .insert("--yellow"@, "#f6c177"@)
            .insert("--red"@, "#eb6f92"@)
            .insert("--violet"@, "#c4a7e7"@),
    )
}

/// Rosé Pine — a muted rose-tinted dark theme.
pub fn rose_pine() -> (r: KiteTheme)
    ensures
        r.wf(),
        r@ == rose_pine_vars(),
{
    with_term(
        KiteTheme::new()
            .with_var("--bg-0", "#191724")
            .with_var("--bg-1", "#1f1d2e")
            .with_var("--bg-2", "#26233a")
            .with_var("--border", "#403d52")
            .with_var("--fg-0", "#e0def4")
            .with_var("--fg-1", "#908caa")
            .with_var("--fg-2", "#6e6a86")
            .with_var("--accent", "#c4a7e7")
            .with_var("--green", "#31748f")
            .with_var("--yellow", "#f6c177")
            .with_var("--red", "#eb6f92")
            .with_var("--violet", "#c4a7e7"),
    )
}

/// The built-in themes by display name, in display-name order.
pub open spec fn builtin_table() -> Seq<(Seq<char>, Map<Seq<char>, Seq<char>>)> {
    seq![
        ("Catppuccin Mocha"@, catppuccin_mocha_vars()),
        ("GPUI Dark"@, gpui_dark_vars()),
        ("GPUI Light"@, gpui_light_vars()),
        ("Rosé Pine"@, rose_pine_vars()),
        ("Tokyo Night"@, tokyo_night_vars()),
    ]
}

/// All built-in themes, ordered by display name.
pub fn builtins() -> (r: Vec<(&'static str, KiteTheme)>)
    ensures
        r@.len() == builtin_table().len(),
        forall|i: int|
            0 <= i < r@.len() ==> (#[trigger] r@[i]).1.wf() && (r@[i].0@, r@[i].1@)
                == builtin_table()[i],
{
    let mut r: Vec<(&'static str, KiteTheme)> = Vec::new();
    r.push(("Catppuccin Mocha", catppuccin_mocha()));
    r.push(("GPUI Dark", gpui_dark()));
    r.push(("GPUI Light", gpui_light()));
    r.push(("Rosé Pine", rose_pine()));
    r.push(("Tokyo Night", tokyo_night()));
    r
}

/// The built-in themes are listed in ascending display-name order.
pub proof fn law_builtins_are_ordered_by_name()
    ensures
        forall|i: int, j: int|
            0 <= i < j < builtin_table().len() ==> lex_lt(
                #[trigger] builtin_table()[i].0,
                #[trigger] builtin_table()[j].0,
            ),
{
    reveal_strlit("Catppuccin Mocha");
    reveal_strlit("GPUI Dark");
    reveal_strlit("GPUI Light");
    reveal_strlit("Rosé Pine");
    reveal_strlit("Tokyo Night");
    let t = builtin_table();
    let (c, d, l, r, k) = (t[0].0, t[1].0, t[2].0, t[3].0, t[4].0);
    assert(lex_lt(c, d));
    assert(lex_lt(d, r));
    assert(lex_lt(r, k));
    assert(lex_lt(c, r));
    assert(lex_lt(c, k));
    assert(lex_lt(d, k));
    assert(lex_lt(l, r));
    assert(lex_lt(l, k));
    assert(lex_lt(d, l)) by {
        reveal_with_fuel(lex_lt, 7);
    }
    assert(lex_lt(c, l));
}

/// The first built-in theme at or after position `i` named `name`.
pub open spec fn find_builtin(
    t: Seq<(Seq<char>, Map<Seq<char>, Seq<char>>)>,
    name: Seq<char>,
    i: int,
) -> Option<Map<Seq<char>, Seq<char>>>
    decreases t.len() - i,
{
    if i < 0 || i >= t.len() {
        None
    } else if t[i].0 == name {
        Some(t[i].1)
    } else {
        find_builtin(t, name, i + 1)
    }
}

/// The theme a display name selects: the built-in of that name, else GPUI
/// Dark.
pub open spec fn resolved_vars(name: Option<Seq<char>>) -> Map<Seq<char>, Seq<char>> {
    match name {
        Some(n) => match find_builtin(builtin_table(), n, 0) {
            Some(m) => m,
            None => gpui_dark_vars(),
        },
        None => gpui_dark_vars(),
    }
}

/// Resolve a theme by display name, falling back to the default (GPUI Dark).
pub fn resolve(name: Option<&str>) -> (r: KiteTheme)
    ensures
        r.wf(),
        r@ == resolved_vars(
            match name {
                Some(n) => Some(n@),
                None => None,
            },
        ),
{
    match name {
        None => gpui_dark(),
        Some(n) => {
            let mut list = builtins();
            let ghost t = builtin_table();
            let mut i: usize = 0;
            while i < list.len()
                invariant
                    list@.len() == t.len(),
                    forall|k: int|
                        0 <= k < list@.len() ==> (#[trigger] list@[k]).1.wf() && (
                        list@[k].0@,
                        list@[k].1@,
                    ) == t[k],
                    i <= list@.len(),
                    t == builtin_table(),
                    name == Some(n),
                    find_builtin(t, n@, i as int) == find_builtin(t, n@, 0),
                decreases list@.len() - i,
            {
                if text_eq(list[i].0, n) {
                    assert(t[i as int].0 == n@);
                    assert(find_builtin(t, n@, i as int) == Some(t[i as int].1));
                    assert(list@[i as int].1@ == t[i as int].1 && list@[i as int].1.wf());
                    let entry = list.remove(i);
                    return entry.1;
                }
                i = i + 1;
            }
            gpui_dark()
        },
    }
}

/// One `name: value;` declaration.
pub open spec fn declaration(e: (Seq<char>, Seq<char>)) -> Seq<char> {
    e.0 + ": "@ + e.1 + ";"@
}

/// The declarations of `s`, one per line, in order.
pub open spec fn css_lines(s: Seq<(Seq<char>, Seq<char>)>) -> Seq<char>
    decreases s.len(),
{
    if s.len() == 0 {
        Seq::empty()
    } else if s.len() == 1 {
        declaration(s[0])
    } else {
        css_lines(s.drop_last()) + "\n"@ + declaration(s.last())
    }
}

impl KiteTheme {
    /// Serialize to a `--var: value;` block, one declaration per line, in
    /// ascending order of the names.
    pub fn to_css_vars(&self) -> (r: String)
        ensures
            r@ == css_lines(self.entries()),
    {
        let ghost es = self.entries();
        let mut out = String::new();
        let mut i: usize = 0;
        while i < self.vars.len()
            invariant
                es == self.entries(),
                es.len() == self.vars@.len(),
                i <= es.len(),
                out@ == css_lines(es.subrange(0, i as int)),
            decreases es.len() - i,
        {
            let ghost before = out@;
            if i > 0 {
                out.append("\n");
            }
            out.append(self.vars[i].0.as_str());
            out.append(": ");
            out.append(self.vars[i].1.as_str());
            out.append(";");
            proof {
                let sub = es.subrange(0, i + 1);
                assert(sub.drop_last() =~= es.subrange(0, i as int));
                assert(sub.last() == es[i as int]);
                assert(es[i as int] == (self.vars@[i as int].0@, self.vars@[i as int].1@));
                if i == 0 {
                    assert(out@ =~= declaration(es[0]));
                } else {
                    assert(out@ =~= before + "\n"@ + declaration(es[i as int]));
                }
            }
            i = i + 1;
        }
        assert(es.subrange(0, i as int) =~= es);
        out
    }
}

/// The OpenKite variable a flattened Zed theme key maps to.
pub open spec fn zed_var(key: Seq<char>) -> Option<Seq<char>> {
    if key == "background"@ {
        Some("--bg-0"@)
    } else if key == "foreground"@ {
        Some("--fg-0"@)
    } else if key == "border"@ {
        Some("--border"@)
    } else if key == "accent"@ {
        Some("--accent"@)
    } else if key == "terminal.ansi.black"@ {
        Some("--term-black"@)
    } else if key == "terminal.ansi.red"@ {
        Some("--term-red"@)
    } else if key == "terminal.ansi.green"@ {
        Some("--term-green"@)
    } else if key == "terminal.ansi.yellow"@ {
        Some("--term-yellow"@)
    } else if key == "terminal.ansi.blue"@ {
        Some("--term-blue"@)
    } else if key == "terminal.ansi.magenta"@ {
        Some("--term-magenta"@)
    } else if key == "terminal.ansi.cyan"@ {
        Some("--term-cyan"@)
    } else if key == "terminal.ansi.white"@ {
        Some("--term-white"@)
    } else if key == "terminal.ansi.bright_black"@ {
        Some("--term-bright-black"@)
    } else if key == "terminal.ansi.bright_red"@ {
        Some("--term-bright-red"@)
    } else if key == "terminal.ansi.bright_green"@ {
        Some("--term-bright-green"@)
    } else if key == "terminal.ansi.bright_yellow"@ {
        Some("--term-bright-yellow"@)
    } else if key == "terminal.ansi.bright_blue"@ {
        Some("--term-bright-blue"@)
    } else if key == "terminal.ansi.bright_magenta"@ {
        Some("--term-bright-magenta"@)
    } else if key == "terminal.ansi.bright_cyan"@ {
        Some("--term-bright-cyan"@)
    } else if key == "terminal.ansi.bright_white"@ {
        Some("--term-bright-white"@)
    } else {
        None
    }
}

/// Map a flattened Zed theme key to its OpenKite CSS variable.
pub fn zed_key(key: &str) -> (r: Option<&'static str>)
    ensures
        match r {
            Some(v) => zed_var(key@) == Some(v@),
            None => zed_var(key@) is None,
        },
{
    if text_eq(key, "background") {
        Some("--bg-0")
    } else if text_eq(key, "foreground") {
        Some("--fg-0")
    } else if text_eq(key, "border") {
        Some("--border")
    } else if text_eq(key, "accent") {
        Some("--accent")
    } else if text_eq(key, "terminal.ansi.black") {
        Some("--term-black")
    } else if text_eq(key, "terminal.ansi.red") {
        Some("--term-red")
    } else if text_eq(key, "terminal.ansi.green") {
        Some("--term-green")
    } else if text_eq(key, "terminal.ansi.yellow") {
        Some("--term-yellow")
    } else if text_eq(key, "terminal.ansi.blue") {
        Some("--term-blue")
    } else if text_eq(key, "terminal.ansi.magenta") {
        Some("--term-magenta")
    } else if text_eq(key, "terminal.ansi.cyan") {
        Some("--term-cyan")
    } else if text_eq(key, "terminal.ansi.white") {
        Some("--term-white")
    } else if text_eq(key, "terminal.ansi.bright_black") {
        Some("--term-bright-black")
    } else if text_eq(key, "terminal.ansi.bright_red") {
        Some("--term-bright-red")
    } else if text_eq(key, "terminal.ansi.bright_green") {
        Some("--term-bright-green")
    } else if text_eq(key, "terminal.ansi.bright_yellow") {
        Some("--term-bright-yellow")
    } else if text_eq(key, "terminal.ansi.bright_blue") {
        Some("--term-bright-blue")
    } else if text_eq(key, "terminal.ansi.bright_magenta") {
        Some("--term-bright-magenta")
    } else if text_eq(key, "terminal.ansi.bright_cyan") {
        Some("--term-bright-cyan")
    } else if text_eq(key, "terminal.ansi.bright_white") {
        Some("--term-bright-white")
    } else {
        None
    }
}

/// What the library reads of a parsed JSON or YAML document: strings,
/// objects (entries in document order), and anything else.
#[derive(Debug)]
pub enum JsonTree {
    Str(String),
    Object(Vec<(String, JsonTree)>),
    Other,
}

/// A nested key joined onto its parent's dotted path.
pub open spec fn join_path(prefix: Seq<char>, key: Seq<char>) -> Seq<char> {
    if prefix.len() == 0 {
        key
    } else {
        prefix + "."@ + key
    }
}

/// The dotted `path → text` pairs of a value at `path`, in document order;
/// `None` when a leaf is not a string.
pub open spec fn flat_value(path: Seq<char>, t: JsonTree) -> Option<Seq<(Seq<char>, Seq<char>)>>
    decreases t,
{
    match t {
        JsonTree::Str(s) => Some(seq![(path, s@)]),
        JsonTree::Object(v) => flat_object(path, v@),
        JsonTree::Other => None,
    }
}

/// The dotted pairs of the entries of an object at `prefix`.
pub open spec fn flat_object(prefix: Seq<char>, es: Seq<(String, JsonTree)>) -> Option<
    Seq<(Seq<char>, Seq<char>)>,
>
    decreases es,
{
    if es.len() == 0 {
        Some(Seq::empty())
    } else {
        let last = es[es.len() - 1];
        proof {
            assert(decreases_to!(es => es[es.len() - 1]));
        }
        match flat_object(prefix, es.drop_last()) {
            None => None,
            Some(a) => match flat_value(join_path(prefix, last.0@), last.1) {
                None => None,
                Some(b) => Some(a + b),
            },
        }
    }
}

/// A list of text pairs by their characters.
pub open spec fn pair_texts(s: Seq<(String, String)>) -> Seq<(Seq<char>, Seq<char>)> {
    s.map_values(|e: (String, String)| (e.0@, e.1@))
}

fn join_key(prefix: &str, key: &str) -> (r: String)
    ensures
        r@ == join_path(prefix@, key@),
{
    if prefix.is_empty() {
        text_of(key)
    } else {
        let mut r = text_of(prefix);
        r.append(".");
        r.append(key);
        r
    }
}

/// Flatten a JSON object into dotted `path → text` pairs appended to `out`,
/// in document order; `false` when some leaf is not a string (what was
/// appended by then is of no use).
fn flatten(prefix: &str, obj: &Vec<(String, JsonTree)>, out: &mut Vec<(String, String)>) -> (r: bool)
    ensures
        r == flat_object(prefix@, obj@) is Some,
        r ==> pair_texts(final(out)@) == pair_texts(old(out)@) + flat_object(prefix@, obj@)->0,
    decreases obj@,
{
    let ghost start = pair_texts(out@);
    let mut i: usize = 0;
    while i < obj.len()
        invariant
            i <= obj@.len(),
            flat_object(prefix@, obj@.subrange(0, i as int)) is Some,
            pair_texts(out@) == start + flat_object(prefix@, obj@.subrange(0, i as int))->0,
        decreases obj@.len() - i,
    {
        let ghost sub = obj@.subrange(0, i + 1);
        assert(sub.drop_last() =~= obj@.subrange(0, i as int));
        assert(sub[sub.len() - 1] == obj@[i as int]);
        let key = &obj[i].0;
        let path = join_key(prefix, key.as_str());
        let ghost before = pair_texts(out@);
        match &obj[i].1 {
            JsonTree::Str(text) => {
                assert(flat_value(path@, obj@[i as int].1) == Some(seq![(path@, text@)]));
                out.push((path, text.clone()));
                assert(pair_texts(out@) =~= before + seq![(path@, text@)]);
            },
            JsonTree::Object(child) => {
                proof {
                    assert(decreases_to!(obj@ => obj@[i as int]));
                }
                if !flatten(path.as_str(), child, out) {
                    assert(obj@[i as int].1 == JsonTree::Object(*child));
                    assert(flat_value(path@, obj@[i as int].1) is None);
                    assert(flat_object(prefix@, sub) is None);
                    assert(flat_object(prefix@, obj@) is None) by {
                        lemma_flat_prefix_none(prefix@, obj@, i as int + 1);
                    }
                    return false;
                }
            },
            JsonTree::Other => {
                assert(flat_value(path@, obj@[i as int].1) is None);
                assert(flat_object(prefix@, sub) is None);
                assert(flat_object(prefix@, obj@) is None) by {
                    lemma_flat_prefix_none(prefix@, obj@, i as int + 1);
                }
                return false;
            },
        }
        i = i + 1;
    }
    assert(obj@.subrange(0, i as int) =~= obj@);
    true
}

proof fn lemma_flat_prefix_none(prefix: Seq<char>, es: Seq<(String, JsonTree)>, k: int)
    requires
        0 <= k <= es.len(),
        flat_object(prefix, es.subrange(0, k)) is None,
    ensures
        flat_object(prefix, es) is None,
    decreases es.len() - k,
{
    if k < es.len() {
        let sub = es.subrange(0, k + 1);
        assert(sub.drop_last() =~= es.subrange(0, k));
        lemma_flat_prefix_none(prefix, es, k + 1);
    } else {
        assert(es.subrange(0, k) =~= es);
    }
}

/// The theme a flattened Zed document imports as: each known key sets its
/// OpenKite variable, in document order; the first unknown key is the
/// error.
pub open spec fn imported(pairs: Seq<(Seq<char>, Seq<char>)>) -> Result<Map<Seq<char>, Seq<char>>, Seq<char>>
    decreases pairs.len(),
{
    if pairs.len() == 0 {
        Ok(Map::empty())
    } else {
        match imported(pairs.drop_last()) {
            Err(k) => Err(k),
            Ok(m) => match zed_var(pairs.last().0) {
                None => Err(pairs.last().0),
                Some(css) => Ok(m.insert(css, pairs.last().1)),
            },
        }
    }
}

/// What importing a Zed document gives: the theme, `None` for a document
/// that is not an object of strings, or the first unknown key.
pub open spec fn zed_import(doc: JsonTree) -> Result<Map<Seq<char>, Seq<char>>, Option<Seq<char>>> {
    match doc {
        JsonTree::Object(v) => match flat_object(Seq::empty(), v@) {
            None => Err(None),
            Some(pairs) => match imported(pairs) {
                Ok(m) => Ok(m),
                Err(k) => Err(Some(k)),
            },
        },
        _ => Err(None),
    }
}

/// What a parsed document reads as: strings, objects (entries in document
/// order), and anything else.
pub enum JsonTreeView {
    Str(Seq<char>),
    Object(Seq<(Seq<char>, JsonTreeView)>),
    Other,
}

/// The value a document tree denotes.
pub open spec fn tree_view(t: JsonTree) -> JsonTreeView
    decreases t,
{
    match t {
        JsonTree::Str(s) => JsonTreeView::Str(s@),
        JsonTree::Object(v) => JsonTreeView::Object(tree_entries_view(v@)),
        JsonTree::Other => JsonTreeView::Other,
    }
}

/// The keys and values of an object's entries.
pub open spec fn tree_entries_view(es: Seq<(String, JsonTree)>) -> Seq<(Seq<char>, JsonTreeView)>
    decreases es,
{
    if es.len() == 0 {
        Seq::empty()
    } else {
        let last = es[es.len() - 1];
        proof {
            assert(decreases_to!(es => es[es.len() - 1]));
        }
        tree_entries_view(es.drop_last()).push((last.0@, tree_view(last.1)))
    }
}

/// The view of an object's entries, entry by entry.
pub proof fn lemma_tree_entries_index(es: Seq<(String, JsonTree)>)
    ensures
        tree_entries_view(es).len() == es.len(),
        forall|i: int|
            0 <= i < es.len() ==> #[trigger] tree_entries_view(es)[i] == (es[i].0@, tree_view(
                es[i].1,
            )),
    decreases es.len(),
{
    if es.len() > 0 {
        lemma_tree_entries_index(es.drop_last());
        let vs = tree_entries_view(es);
        assert forall|i: int| 0 <= i < es.len() implies #[trigger] tree_entries_view(es)[i] == (
        es[i].0@, tree_view(es[i].1)) by {
            if i < es.len() - 1 {
                assert(vs[i] == tree_entries_view(es.drop_last())[i]);
                assert(es.drop_last()[i] == es[i]);
            }
        }
    }
}

/// [`flat_value`] over a document's value.
pub open spec fn flat_value_of(path: Seq<char>, t: JsonTreeView) -> Option<Seq<(Seq<char>, Seq<char>)>>
    decreases t,
{
    match t {
        JsonTreeView::Str(s) => Some(seq![(path, s)]),
        JsonTreeView::Object(v) => flat_entries_of(path, v),
        JsonTreeView::Other => None,
    }
}

/// [`flat_object`] over a document's entries.
pub open spec fn flat_entries_of(prefix: Seq<char>, es: Seq<(Seq<char>, JsonTreeView)>) -> Option<
    Seq<(Seq<char>, Seq<char>)>,
>
    decreases es,
{
    if es.len() == 0 {
        Some(Seq::empty())
    } else {
        let last = es[es.len() - 1];
        proof {
            assert(decreases_to!(es => es[es.len() - 1]));
        }
        match flat_entries_of(prefix, es.drop_last()) {
            None => None,
            Some(a) => match flat_value_of(join_path(prefix, last.0), last.1) {
                None => None,
                Some(b) => Some(a + b),
            },
        }
    }
}

/// What importing a Zed document's value gives: the theme, `None` for a
/// document that is not an object of strings, or the first unknown key.
pub open spec fn zed_import_of(doc: JsonTreeView) -> Result<Map<Seq<char>, Seq<char>>, Option<Seq<char>>> {
    match doc {
        JsonTreeView::Object(v) => match flat_entries_of(Seq::empty(), v) {
            None => Err(None),
            Some(pairs) => match imported(pairs) {
                Ok(m) => Ok(m),
                Err(k) => Err(Some(k)),
            },
        },
        _ => Err(None),
    }
}

proof fn lemma_flat_value_view(path: Seq<char>, t: JsonTree)
    ensures
        flat_value(path, t) == flat_value_of(path, tree_view(t)),
    decreases t,
{
    match t {
        JsonTree::Object(v) => lemma_flat_entries_view(path, v@),
        _ => {},
    }
}

proof fn lemma_flat_entries_view(prefix: Seq<char>, es: Seq<(String, JsonTree)>)
    ensures
        flat_object(prefix, es) == flat_entries_of(prefix, tree_entries_view(es)),
    decreases es,
{
    if es.len() > 0 {
        let last = es[es.len() - 1];
        assert(decreases_to!(es => es[es.len() - 1]));
        lemma_flat_entries_view(prefix, es.drop_last());
        lemma_flat_value_view(join_path(prefix, last.0@), last.1);
        let vs = tree_entries_view(es);
        assert(vs.drop_last() =~= tree_entries_view(es.drop_last()));
        assert(vs[vs.len() - 1] == (last.0@, tree_view(last.1)));
    }
}

proof fn lemma_zed_import_view(t: JsonTree)
    ensures
        zed_import(t) == zed_import_of(tree_view(t)),
{
    match t {
        JsonTree::Object(v) => lemma_flat_entries_view(Seq::empty(), v@),
        _ => {},
    }
}

/// The document value a JSON text parses to with `serde_json`, as theme
/// import reads it; `None` when the text is not JSON.
pub uninterp spec fn json_tree_of(text: Seq<char>) -> Option<JsonTreeView>;

/// The shape of a parsed JSON value: strings, objects (in `serde_json`'s
/// map order) and everything else, one variant for each.
#[verifier::external_body]
pub(crate) fn tree_of_value(v: &serde_json::Value) -> JsonTree {
    match v {
        serde_json::Value::String(s) => JsonTree::Str(s.clone()),
        serde_json::Value::Object(m) => JsonTree::Object(m.iter().map(|(k, c)| (k.clone(), tree_of_value(c))).collect()),
        _ => JsonTree::Other,
    }
}

/// Parses JSON text with `serde_json::from_str` into a value. Trusted: the
/// outcome, and the value's strings and objects, are a function of the text
/// alone; `None` exactly when the text is not JSON.
#[verifier::external_body]
fn parse_json_tree(text: &str) -> (r: Option<JsonTree>)
    ensures
        match r {
            Some(t) => json_tree_of(text@) == Some(tree_view(t)),
            None => json_tree_of(text@) is None,
        },
{
    serde_json::from_str::<serde_json::Value>(text).ok().map(|v| tree_of_value(&v))
}

/// Import a Zed theme JSON document into an OpenKite theme: text that is not
/// JSON, or not an object of strings, is malformed; a key without a known
/// mapping fails with that key.
pub fn import_zed(json: &str) -> (r: Result<KiteTheme, ThemeError>)
    ensures
        match json_tree_of(json@) {
            None => r matches Err(ThemeError::MalformedJson),
            Some(doc) => match (r, zed_import_of(doc)) {
                (Ok(t), Ok(m)) => t.wf() && t@ == m,
                (Err(ThemeError::MalformedJson), Err(None)) => true,
                (Err(ThemeError::UnknownKey(k)), Err(Some(key))) => k@ == key,
                _ => false,
            },
        },
{
    match parse_json_tree(json) {
        None => Err(ThemeError::MalformedJson),
        Some(doc) => {
            proof {
                lemma_zed_import_view(doc);
            }
            import_zed_tree(&doc)
        },
    }
}

/// Import a parsed Zed theme document into an OpenKite theme.
///
/// Accepts a JSON object (flat or nested, e.g. `terminal.ansi.black`) and
/// rejects any key without a known mapping so typos fail loudly rather than
/// silently producing a broken theme.
pub fn import_zed_tree(doc: &JsonTree) -> (r: Result<KiteTheme, ThemeError>)
    ensures
        match (r, zed_import(*doc)) {
            (Ok(t), Ok(m)) => t.wf() && t@ == m,
            (Err(ThemeError::MalformedJson), Err(None)) => true,
            (Err(ThemeError::UnknownKey(k)), Err(Some(key))) => k@ == key,
            _ => false,
        },
{
    let obj = match doc {
        JsonTree::Object(v) => v,
        _ => return Err(ThemeError::MalformedJson),
    };
    let mut flat: Vec<(String, String)> = Vec::new();
    proof {
        reveal_strlit("");
        assert(""@ =~= Seq::<char>::empty());
    }
    if !flatten("", obj, &mut flat) {
        return Err(ThemeError::MalformedJson);
    }
    let ghost pairs = pair_texts(flat@);
    assert(pairs =~= flat_object(Seq::empty(), obj@)->0);
    assert(zed_import(*doc) == match imported(pairs) {
        Ok(m) => Ok(m),
        Err(k) => Err(Some(k)),
    });
    let mut theme = KiteTheme::new();
    let mut i: usize = 0;
    while i < flat.len()
        invariant
            i <= flat@.len(),
            pairs == pair_texts(flat@),
            zed_import(*doc) == match imported(pairs) {
                Ok(m) => Ok(m),
                Err(k) => Err(Some(k)),
            },
            theme.wf(),
            imported(pairs.subrange(0, i as int)) == Ok::<Map<Seq<char>, Seq<char>>, Seq<char>>(theme@),
        decreases flat@.len() - i,
    {
        let ghost sub = pairs.subrange(0, i + 1);
        assert(sub.drop_last() =~= pairs.subrange(0, i as int));
        assert(sub.last() == pairs[i as int]);
        match zed_key(flat[i].0.as_str()) {
            None => {
                assert(imported(sub) is Err);
                assert(imported(pairs) is Err && imported(pairs)->Err_0 == flat@[i as int].0@) by {
                    lemma_imported_prefix_err(pairs, i as int + 1);
                }
                return Err(ThemeError::UnknownKey(flat[i].0.clone()));
            },
            Some(css) => {
                theme = theme.with_var(css, flat[i].1.as_str());
            },
        }
        i = i + 1;
    }
    assert(pairs.subrange(0, i as int) =~= pairs);
    Ok(theme)
}

proof fn lemma_imported_prefix_err(pairs: Seq<(Seq<char>, Seq<char>)>, k: int)
    requires
        0 <= k <= pairs.len(),
        imported(pairs.subrange(0, k)) is Err,
    ensures
        imported(pairs) == imported(pairs.subrange(0, k)),
    decreases pairs.len() - k,
{
    if k < pairs.len() {
        let sub = pairs.subrange(0, k + 1);
        assert(sub.drop_last() =~= pairs.subrange(0, k));
        lemma_imported_prefix_err(pairs, k + 1);
    } else {
        assert(pairs.subrange(0, k) =~= pairs);
    }
}

/// Reading a variable back after setting it gives the value set, and every
/// other variable keeps its value: what `with_var` then `get` promise.
pub proof fn law_theme_reads_back_what_was_set(
    t: KiteTheme,
    key: Seq<char>,
    value: Seq<char>,
    other: Seq<char>,
)
    requires
        t.wf(),
    ensures
        t@.insert(key, value).contains_key(key),
        t@.insert(key, value)[key] == value,
        other != key ==> (t@.insert(key, value).contains_key(other) == t@.contains_key(other)
            && t@.insert(key, value)[other] == t@[other]),
{
}

/// The ANSI colour names of a terminal palette, in palette order.
pub open spec fn ansi_colours() -> Seq<Seq<char>> {
    seq!["black"@, "red"@, "green"@, "yellow"@, "blue"@, "magenta"@, "cyan"@, "white"@]
}

/// A document holding one string `value` under `key`.
pub open spec fn one_key_doc(key: Seq<char>, value: Seq<char>) -> JsonTreeView {
    JsonTreeView::Object(seq![(key, JsonTreeView::Str(value))])
}

proof fn lemma_one_key_import(key: Seq<char>, value: Seq<char>)
    ensures
        zed_import_of(one_key_doc(key, value)) == match zed_var(key) {
            Some(css) => Ok::<Map<Seq<char>, Seq<char>>, Option<Seq<char>>>(Map::empty().insert(css, value)),
            None => Err(Some(key)),
        },
{
    let es = seq![(key, JsonTreeView::Str(value))];
    let none = Seq::<(Seq<char>, JsonTreeView)>::empty();
    assert(es.drop_last() =~= none);
    assert(flat_entries_of(Seq::empty(), none) == Some(Seq::<(Seq<char>, Seq<char>)>::empty()));
    assert(join_path(Seq::empty(), key) == key);
    assert(flat_value_of(key, JsonTreeView::Str(value)) == Some(seq![(key, value)]));
    let pairs = Seq::<(Seq<char>, Seq<char>)>::empty() + seq![(key, value)];
    assert(flat_entries_of(Seq::empty(), es) == Some(pairs));
    assert(pairs.drop_last() =~= Seq::<(Seq<char>, Seq<char>)>::empty());
    assert(imported(Seq::<(Seq<char>, Seq<char>)>::empty()) == Ok::<Map<Seq<char>, Seq<char>>, Seq<char>>(Map::empty()));
    assert(pairs.last() == (key, value));
}

proof fn lemma_zed_row_0()
    ensures
        zed_var("background"@) == Some("--bg-0"@),
{
    reveal_strlit("background");
}

proof fn lemma_zed_row_1()
    ensures
        zed_var("foreground"@) == Some("--fg-0"@),
{
    reveal_strlit("foreground");
    reveal_strlit("background");
    assert("foreground"@[0] != "background"@[0]);
}

proof fn lemma_zed_row_2()
    ensures
        zed_var("border"@) == Some("--border"@),
{
    reveal_strlit("border");
    reveal_strlit("background");
    assert("border"@.len() != "background"@.len());
    reveal_strlit("foreground");
    assert("border"@.len() != "foreground"@.len());
}

proof fn lemma_zed_row_3()
    ensures
        zed_var("accent"@) == Some("--accent"@),
{
    reveal_strlit("accent");
    reveal_strlit("background");
    assert("accent"@.len() != "background"@.len());
    reveal_strlit("foreground");
    assert("accent"@.len() != "foreground"@.len());
    reveal_strlit("border");
    assert("accent"@[0] != "border"@[0]);
}

proof fn lemma_zed_row_4()
    ensures
        zed_var("terminal.ansi.black"@) == Some("--term-black"@),
{
    reveal_strlit("terminal.ansi.black");
    reveal_strlit("background");
    assert("terminal.ansi.black"@.len() != "background"@.len());
    reveal_strlit("foreground");
    assert("terminal.ansi.black"@.len() != "foreground"@.len());
    reveal_strlit("border");
    assert("terminal.ansi.black"@.len() != "border"@.len());
    reveal_strlit("accent");
    assert("terminal.ansi.black"@.len() != "accent"@.len());
}

proof fn lemma_zed_row_5()
    ensures
        zed_var("terminal.ansi.red"@) == Some("--term-red"@),
{
    reveal_strlit("terminal.ansi.red");
    reveal_strlit("background");
    assert("terminal.ansi.red"@.len() != "background"@.len());
    reveal_strlit("foreground");
    assert("terminal.ansi.red"@.len() != "foreground"@.len());
    reveal_strlit("border");
    assert("terminal.ansi.red"@.len() != "border"@.len());
    reveal_strlit("accent");
    assert("terminal.ansi.red"@.len() != "accent"@.len());
    reveal_strlit("terminal.ansi.black");
    assert("terminal.ansi.red"@.len() != "terminal.ansi.black"@.len());
}

proof fn lemma_zed_row_6()
    ensures
        zed_var("terminal.ansi.green"@) == Some("--term-green"@),
{
    reveal_strlit("terminal.ansi.green");
    reveal_strlit("background");
    assert("terminal.ansi.green"@.len() != "background"@.len());
    reveal_strlit("foreground");
    assert("terminal.ansi.green"@.len() != "foreground"@.len());
    reveal_strlit("border");
    assert("terminal.ansi.green"@.len() != "border"@.len());
    reveal_strlit("accent");
    assert("terminal.ansi.green"@.len() != "accent"@.len());
    reveal_strlit("terminal.ansi.black");
    assert("terminal.ansi.green"@[14] != "terminal.ansi.black"@[14]);
    reveal_strlit("terminal.ansi.red");
    assert("terminal.ansi.green"@.len() != "terminal.ansi.red"@.len());
}

proof fn lemma_zed_row_7()
    ensures
        zed_var("terminal.ansi.yellow"@) == Some("--term-yellow"@),
{
    reveal_strlit("terminal.ansi.yellow");
    reveal_strlit("background");
    assert("terminal.ansi.yellow"@.len() != "background"@.len());
    reveal_strlit("foreground");
    assert("terminal.ansi.yellow"@.len() != "foreground"@.len());
    reveal_strlit("border");
    assert("terminal.ansi.yellow"@.len() != "border"@.len());
    reveal_strlit("accent");
    assert("terminal.ansi.yellow"@.len() != "accent"@.len());
    reveal_strlit("terminal.ansi.black");
    assert("terminal.ansi.yellow"@.len() != "terminal.ansi.black"@.len());
    reveal_strlit("terminal.ansi.red");
    assert("terminal.ansi.yellow"@.len() != "terminal.ansi.red"@.len());
    reveal_strlit("terminal.ansi.green");
    assert("terminal.ansi.yellow"@.len() != "terminal.ansi.green"@.len());
}

proof fn lemma_zed_row_8()
    ensures
        zed_var("terminal.ansi.blue"@) == Some("--term-blue"@),
{
    reveal_strlit("terminal.ansi.blue");
    reveal_strlit("background");
    assert("terminal.ansi.blue"@.len() != "background"@.len());
    reveal_strlit("foreground");
    assert("terminal.ansi.blue"@.len() != "foreground"@.len());
    reveal_strlit("border");
    assert("terminal.ansi.blue"@.len() != "border"@.len());
    reveal_strlit("accent");
    assert("terminal.ansi.blue"@.len() != "accent"@.len());
    reveal_strlit("terminal.ansi.black");
    assert("terminal.ansi.blue"@.len() != "terminal.ansi.black"@.len());
    reveal_strlit("terminal.ansi.red");
    assert("terminal.ansi.blue"@.len() != "terminal.ansi.red"@.len());
    reveal_strlit("terminal.ansi.green");
    assert("terminal.ansi.blue"@.len() != "terminal.ansi.green"@.len());
    reveal_strlit("terminal.ansi.yellow");
    assert("terminal.ansi.blue"@.len() != "terminal.ansi.yellow"@.len());
}

proof fn lemma_zed_row_9()
    ensures
        zed_var("terminal.ansi.magenta"@) == Some("--term-magenta"@),
{
    reveal_strlit("terminal.ansi.magenta");
    reveal_strlit("background");
    assert("terminal.ansi.magenta"@.len() != "background"@.len());
    reveal_strlit("foreground");
    assert("terminal.ansi.magenta"@.len() != "foreground"@.len());
    reveal_strlit("border");
    assert("terminal.ansi.magenta"@.len() != "border"@.len());
    reveal_strlit("accent");
    assert("terminal.ansi.magenta"@.len() != "accent"@.len());
    reveal_strlit("terminal.ansi.black");
    assert("terminal.ansi.magenta"@.len() != "terminal.ansi.black"@.len());
    reveal_strlit("terminal.ansi.red");
    assert("terminal.ansi.magenta"@.len() != "terminal.ansi.red"@.len());
    reveal_strlit("terminal.ansi.green");
    assert("terminal.ansi.magenta"@.len() != "terminal.ansi.green"@.len());
    reveal_strlit("terminal.ansi.yellow");
    assert("terminal.ansi.magenta"@.len() != "terminal.ansi.yellow"@.len());
    reveal_strlit("terminal.ansi.blue");
    assert("terminal.ansi.magenta"@.len() != "terminal.ansi.blue"@.len());
}

proof fn lemma_zed_row_10()
    ensures
        zed_var("terminal.ansi.cyan"@) == Some("--term-cyan"@),
{
    reveal_strlit("terminal.ansi.cyan");
    reveal_strlit("background");
    assert("terminal.ansi.cyan"@.len() != "background"@.len());
    reveal_strlit("foreground");
    assert("terminal.ansi.cyan"@.len() != "foreground"@.len());
    reveal_strlit("border");
    assert("terminal.ansi.cyan"@.len() != "border"@.len());
    reveal_strlit("accent");
    assert("terminal.ansi.cyan"@.len() != "accent"@.len());
    reveal_strlit("terminal.ansi.black");
    assert("terminal.ansi.cyan"@.len() != "terminal.ansi.black"@.len());
    reveal_strlit("terminal.ansi.red");
    assert("terminal.ansi.cyan"@.len() != "terminal.ansi.red"@.len());
    reveal_strlit("terminal.ansi.green");
    assert("terminal.ansi.cyan"@.len() != "terminal.ansi.green"@.len());
    reveal_strlit("terminal.ansi.yellow");
    assert("terminal.ansi.cyan"@.len() != "terminal.ansi.yellow"@.len());
    reveal_strlit("terminal.ansi.blue");
    assert("terminal.ansi.cyan"@[14] != "terminal.ansi.blue"@[14]);
    reveal_strlit("terminal.ansi.magenta");
    assert("terminal.ansi.cyan"@.len() != "terminal.ansi.magenta"@.len());
}

proof fn lemma_zed_row_11()
    ensures
        zed_var("terminal.ansi.white"@) == Some("--term-white"@),
{
    reveal_strlit("terminal.ansi.white");
    reveal_strlit("background");
    assert("terminal.ansi.white"@.len() != "background"@.len());
    reveal_strlit("foreground");
    assert("terminal.ansi.white"@.len() != "foreground"@.len());
    reveal_strlit("border");
    assert("terminal.ansi.white"@.len() != "border"@.len());
    reveal_strlit("accent");
    assert("terminal.ansi.white"@.len() != "accent"@.len());
    reveal_strlit("terminal.ansi.black");
    assert("terminal.ansi.white"@[14] != "terminal.ansi.black"@[14]);
    reveal_strlit("terminal.ansi.red");
    assert("terminal.ansi.white"@.len() != "terminal.ansi.red"@.len());
    reveal_strlit("terminal.ansi.green");
    assert("terminal.ansi.white"@[14] != "terminal.ansi.green"@[14]);
    reveal_strlit("terminal.ansi.yellow");
    assert("terminal.ansi.white"@.len() != "terminal.ansi.yellow"@.len());
    reveal_strlit("terminal.ansi.blue");
    assert("terminal.ansi.white"@.len() != "terminal.ansi.blue"@.len());
    reveal_strlit("terminal.ansi.magenta");
    assert("terminal.ansi.white"@.len() != "terminal.ansi.magenta"@.len());
    reveal_strlit("terminal.ansi.cyan");
    assert("terminal.ansi.white"@.len() != "terminal.ansi.cyan"@.len());
}

proof fn lemma_zed_row_12()
    ensures
        zed_var("terminal.ansi.bright_black"@) == Some("--term-bright-black"@),
{
    reveal_strlit("terminal.ansi.bright_black");
    reveal_strlit("background");
    assert("terminal.ansi.bright_black"@.len() != "background"@.len());
    reveal_strlit("foreground");
    assert("terminal.ansi.bright_black"@.len() != "foreground"@.len());
    reveal_strlit("border");
    assert("terminal.ansi.bright_black"@.len() != "border"@.len());
    reveal_strlit("accent");
    assert("terminal.ansi.bright_black"@.len() != "accent"@.len());
    reveal_strlit("terminal.ansi.black");
    assert("terminal.ansi.bright_black"@.len() != "terminal.ansi.black"@.len());
    reveal_strlit("terminal.ansi.red");
    assert("terminal.ansi.bright_black"@.len() != "terminal.ansi.red"@.len());
    reveal_strlit("terminal.ansi.green");
    assert("terminal.ansi.bright_black"@.len() != "terminal.ansi.green"@.len());
    reveal_strlit("terminal.ansi.yellow");
    assert("terminal.ansi.bright_black"@.len() != "terminal.ansi.yellow"@.len());
    reveal_strlit("terminal.ansi.blue");
    assert("terminal.ansi.bright_black"@.len() != "terminal.ansi.blue"@.len());
    reveal_strlit("terminal.ansi.magenta");
    assert("terminal.ansi.bright_black"@.len() != "terminal.ansi.magenta"@.len());
    reveal_strlit("terminal.ansi.cyan");
    assert("terminal.ansi.bright_black"@.len() != "terminal.ansi.cyan"@.len());
    reveal_strlit("terminal.ansi.white");
    assert("terminal.ansi.bright_black"@.len() != "terminal.ansi.white"@.len());
}

proof fn lemma_zed_row_13()
    ensures
        zed_var("terminal.ansi.bright_red"@) == Some("--term-bright-red"@),
{
    reveal_strlit("terminal.ansi.bright_red");
    reveal_strlit("background");
    assert("terminal.ansi.bright_red"@.len() != "background"@.len());
    reveal_strlit("foreground");
    assert("terminal.ansi.bright_red"@.len() != "foreground"@.len());
    reveal_strlit("border");
    assert("terminal.ansi.bright_red"@.len() != "border"@.len());
    reveal_strlit("accent");
    assert("terminal.ansi.bright_red"@.len() != "accent"@.len());
    reveal_strlit("terminal.ansi.black");
    assert("terminal.ansi.bright_red"@.len() != "terminal.ansi.black"@.len());
    reveal_strlit("terminal.ansi.red");
    assert("terminal.ansi.bright_red"@.len() != "terminal.ansi.red"@.len());
    reveal_strlit("terminal.ansi.green");
    assert("terminal.ansi.bright_red"@.len() != "terminal.ansi.green"@.len());
    reveal_strlit("terminal.ansi.yellow");
    assert("terminal.ansi.bright_red"@.len() != "terminal.ansi.yellow"@.len());
    reveal_strlit("terminal.ansi.blue");
    assert("terminal.ansi.bright_red"@.len() != "terminal.ansi.blue"@.len());
    reveal_strlit("terminal.ansi.magenta");
    assert("terminal.ansi.bright_red"@.len() != "terminal.ansi.magenta"@.len());
    reveal_strlit("terminal.ansi.cyan");
    assert("terminal.ansi.bright_red"@.len() != "terminal.ansi.cyan"@.len());
    reveal_strlit("terminal.ansi.white");
    assert("terminal.ansi.bright_red"@.len() != "terminal.ansi.white"@.len());
    reveal_strlit("terminal.ansi.bright_black");
    assert("terminal.ansi.bright_red"@.len() != "terminal.ansi.bright_black"@.len());
}

proof fn lemma_zed_row_14()
    ensures
        zed_var("terminal.ansi.bright_green"@) == Some("--term-bright-green"@),
{
    reveal_strlit("terminal.ansi.bright_green");
    reveal_strlit("background");
    assert("terminal.ansi.bright_green"@.len() != "background"@.len());
    reveal_strlit("foreground");
    assert("terminal.ansi.bright_green"@.len() != "foreground"@.len());
    reveal_strlit("border");
    assert("terminal.ansi.bright_green"@.len() != "border"@.len());
    reveal_strlit("accent");
    assert("terminal.ansi.bright_green"@.len() != "accent"@.len());
    reveal_strlit("terminal.ansi.black");
    assert("terminal.ansi.bright_green"@.len() != "terminal.ansi.black"@.len());
    reveal_strlit("terminal.ansi.red");
    assert("terminal.ansi.bright_green"@.len() != "terminal.ansi.red"@.len());
    reveal_strlit("terminal.ansi.green");
    assert("terminal.ansi.bright_green"@.len() != "terminal.ansi.green"@.len());
    reveal_strlit("terminal.ansi.yellow");
    assert("terminal.ansi.bright_green"@.len() != "terminal.ansi.yellow"@.len());
    reveal_strlit("terminal.ansi.blue");
    assert("terminal.ansi.bright_green"@.len() != "terminal.ansi.blue"@.len());
    reveal_strlit("terminal.ansi.magenta");
    assert("terminal.ansi.bright_green"@.len() != "terminal.ansi.magenta"@.len());
    reveal_strlit("terminal.ansi.cyan");
    assert("terminal.ansi.bright_green"@.len() != "terminal.ansi.cyan"@.len());
    reveal_strlit("terminal.ansi.white");
    assert("terminal.ansi.bright_green"@.len() != "terminal.ansi.white"@.len());
    reveal_strlit("terminal.ansi.bright_black");
    assert("terminal.ansi.bright_green"@[21] != "terminal.ansi.bright_black"@[21]);
    reveal_strlit("terminal.ansi.bright_red");
    assert("terminal.ansi.bright_green"@.len() != "terminal.ansi.bright_red"@.len());
}

proof fn lemma_zed_row_15()
    ensures
        zed_var("terminal.ansi.bright_yellow"@) == Some("--term-bright-yellow"@),
{
    reveal_strlit("terminal.ansi.bright_yellow");
    reveal_strlit("background");
    assert("terminal.ansi.bright_yellow"@.len() != "background"@.len());
    reveal_strlit("foreground");
    assert("terminal.ansi.bright_yellow"@.len() != "foreground"@.len());
    reveal_strlit("border");
    assert("terminal.ansi.bright_yellow"@.len() != "border"@.len());
    reveal_strlit("accent");
    assert("terminal.ansi.bright_yellow"@.len() != "accent"@.len());
    reveal_strlit("terminal.ansi.black");
    assert("terminal.ansi.bright_yellow"@.len() != "terminal.ansi.black"@.len());
    reveal_strlit("terminal.ansi.red");
    assert("terminal.ansi.bright_yellow"@.len() != "terminal.ansi.red"@.len());
    reveal_strlit("terminal.ansi.green");
    assert("terminal.ansi.bright_yellow"@.len() != "terminal.ansi.green"@.len());
    reveal_strlit("terminal.ansi.yellow");
    assert("terminal.ansi.bright_yellow"@.len() != "terminal.ansi.yellow"@.len());
    reveal_strlit("terminal.ansi.blue");
    assert("terminal.ansi.bright_yellow"@.len() != "terminal.ansi.blue"@.len());
    reveal_strlit("terminal.ansi.magenta");
    assert("terminal.ansi.bright_yellow"@.len() != "terminal.ansi.magenta"@.len());
    reveal_strlit("terminal.ansi.cyan");
    assert("terminal.ansi.bright_yellow"@.len() != "terminal.ansi.cyan"@.len());
    reveal_strlit("terminal.ansi.white");
    assert("terminal.ansi.bright_yellow"@.len() != "terminal.ansi.white"@.len());
    reveal_strlit("terminal.ansi.bright_black");
    assert("terminal.ansi.bright_yellow"@.len() != "terminal.ansi.bright_black"@.len());
    reveal_strlit("terminal.ansi.bright_red");
    assert("terminal.ansi.bright_yellow"@.len() != "terminal.ansi.bright_red"@.len());
    reveal_strlit("terminal.ansi.bright_green");
    assert("terminal.ansi.bright_yellow"@.len() != "terminal.ansi.bright_green"@.len());
}

proof fn lemma_zed_row_16()
    ensures
        zed_var("terminal.ansi.bright_blue"@) == Some("--term-bright-blue"@),
{
    reveal_strlit("terminal.ansi.bright_blue");
    reveal_strlit("background");
    assert("terminal.ansi.bright_blue"@.len() != "background"@.len());
    reveal_strlit("foreground");
    assert("terminal.ansi.bright_blue"@.len() != "foreground"@.len());
    reveal_strlit("border");
    assert("terminal.ansi.bright_blue"@.len() != "border"@.len());
    reveal_strlit("accent");
    assert("terminal.ansi.bright_blue"@.len() != "accent"@.len());
    reveal_strlit("terminal.ansi.black");
    assert("terminal.ansi.bright_blue"@.len() != "terminal.ansi.black"@.len());
    reveal_strlit("terminal.ansi.red");
    assert("terminal.ansi.bright_blue"@.len() != "terminal.ansi.red"@.len());
    reveal_strlit("terminal.ansi.green");
    assert("terminal.ansi.bright_blue"@.len() != "terminal.ansi.green"@.len());
    reveal_strlit("terminal.ansi.yellow");
    assert("terminal.ansi.bright_blue"@.len() != "terminal.ansi.yellow"@.len());
    reveal_strlit("terminal.ansi.blue");
    assert("terminal.ansi.bright_blue"@.len() != "terminal.ansi.blue"@.len());
    reveal_strlit("terminal.ansi.magenta");
    assert("terminal.ansi.bright_blue"@.len() != "terminal.ansi.magenta"@.len());
    reveal_strlit("terminal.ansi.cyan");
    assert("terminal.ansi.bright_blue"@.len() != "terminal.ansi.cyan"@.len());
    reveal_strlit("terminal.ansi.white");
    assert("terminal.ansi.bright_blue"@.len() != "terminal.ansi.white"@.len());
    reveal_strlit("terminal.ansi.bright_black");
    assert("terminal.ansi.bright_blue"@.len() != "terminal.ansi.bright_black"@.len());
    reveal_strlit("terminal.ansi.bright_red");
    assert("terminal.ansi.bright_blue"@.len() != "terminal.ansi.bright_red"@.len());
    reveal_strlit("terminal.ansi.bright_green");
    assert("terminal.ansi.bright_blue"@.len() != "terminal.ansi.bright_green"@.len());
    reveal_strlit("terminal.ansi.bright_yellow");
    assert("terminal.ansi.bright_blue"@.len() != "terminal.ansi.bright_yellow"@.len());
}

proof fn lemma_zed_row_17()
    ensures
        zed_var("terminal.ansi.bright_magenta"@) == Some("--term-bright-magenta"@),
{
    reveal_strlit("terminal.ansi.bright_magenta");
    reveal_strlit("background");
    assert("terminal.ansi.bright_magenta"@.len() != "background"@.len());
    reveal_strlit("foreground");
    assert("terminal.ansi.bright_magenta"@.len() != "foreground"@.len());
    reveal_strlit("border");
    assert("terminal.ansi.bright_magenta"@.len() != "border"@.len());
    reveal_strlit("accent");
    assert("terminal.ansi.bright_magenta"@.len() != "accent"@.len());
    reveal_strlit("terminal.ansi.black");
    assert("terminal.ansi.bright_magenta"@.len() != "terminal.ansi.black"@.len());
    reveal_strlit("terminal.ansi.red");
    assert("terminal.ansi.bright_magenta"@.len() != "terminal.ansi.red"@.len());
    reveal_strlit("terminal.ansi.green");
    assert("terminal.ansi.bright_magenta"@.len() != "terminal.ansi.green"@.len());
    reveal_strlit("terminal.ansi.yellow");
    assert("terminal.ansi.bright_magenta"@.len() != "terminal.ansi.yellow"@.len());
    reveal_strlit("terminal.ansi.blue");
    assert("terminal.ansi.bright_magenta"@.len() != "terminal.ansi.blue"@.len());
    reveal_strlit("terminal.ansi.magenta");
    assert("terminal.ansi.bright_magenta"@.len() != "terminal.ansi.magenta"@.len());
    reveal_strlit("terminal.ansi.cyan");
    assert("terminal.ansi.bright_magenta"@.len() != "terminal.ansi.cyan"@.len());
    reveal_strlit("terminal.ansi.white");
    assert("terminal.ansi.bright_magenta"@.len() != "terminal.ansi.white"@.len());
    reveal_strlit("terminal.ansi.bright_black");
    assert("terminal.ansi.bright_magenta"@.len() != "terminal.ansi.bright_black"@.len());
    reveal_strlit("terminal.ansi.bright_red");
    assert("terminal.ansi.bright_magenta"@.len() != "terminal.ansi.bright_red"@.len());
    reveal_strlit("terminal.ansi.bright_green");
    assert("terminal.ansi.bright_magenta"@.len() != "terminal.ansi.bright_green"@.len());
    reveal_strlit("terminal.ansi.bright_yellow");
    assert("terminal.ansi.bright_magenta"@.len() != "terminal.ansi.bright_yellow"@.len());
    reveal_strlit("terminal.ansi.bright_blue");
    assert("terminal.ansi.bright_magenta"@.len() != "terminal.ansi.bright_blue"@.len());
}

proof fn lemma_zed_row_18()
    ensures
        zed_var("terminal.ansi.bright_cyan"@) == Some("--term-bright-cyan"@),
{
    reveal_strlit("terminal.ansi.bright_cyan");
    reveal_strlit("background");
    assert("terminal.ansi.bright_cyan"@.len() != "background"@.len());
    reveal_strlit("foreground");
    assert("terminal.ansi.bright_cyan"@.len() != "foreground"@.len());
    reveal_strlit("border");
    assert("terminal.ansi.bright_cyan"@.len() != "border"@.len());
    reveal_strlit("accent");
    assert("terminal.ansi.bright_cyan"@.len() != "accent"@.len());
    reveal_strlit("terminal.ansi.black");
    assert("terminal.ansi.bright_cyan"@.len() != "terminal.ansi.black"@.len());
    reveal_strlit("terminal.ansi.red");
    assert("terminal.ansi.bright_cyan"@.len() != "terminal.ansi.red"@.len());
    reveal_strlit("terminal.ansi.green");
    assert("terminal.ansi.bright_cyan"@.len() != "terminal.ansi.green"@.len());
    reveal_strlit("terminal.ansi.yellow");
    assert("terminal.ansi.bright_cyan"@.len() != "terminal.ansi.yellow"@.len());
    reveal_strlit("terminal.ansi.blue");
    assert("terminal.ansi.bright_cyan"@.len() != "terminal.ansi.blue"@.len());
    reveal_strlit("terminal.ansi.magenta");
    assert("terminal.ansi.bright_cyan"@.len() != "terminal.ansi.magenta"@.len());
    reveal_strlit("terminal.ansi.cyan");
    assert("terminal.ansi.bright_cyan"@.len() != "terminal.ansi.cyan"@.len());
    reveal_strlit("terminal.ansi.white");
    assert("terminal.ansi.bright_cyan"@.len() != "terminal.ansi.white"@.len());
    reveal_strlit("terminal.ansi.bright_black");
    assert("terminal.ansi.bright_cyan"@.len() != "terminal.ansi.bright_black"@.len());
    reveal_strlit("terminal.ansi.bright_red");
    assert("terminal.ansi.bright_cyan"@.len() != "terminal.ansi.bright_red"@.len());
    reveal_strlit("terminal.ansi.bright_green");
    assert("terminal.ansi.bright_cyan"@.len() != "terminal.ansi.bright_green"@.len());
    reveal_strlit("terminal.ansi.bright_yellow");
    assert("terminal.ansi.bright_cyan"@.len() != "terminal.ansi.bright_yellow"@.len());
    reveal_strlit("terminal.ansi.bright_blue");
    assert("terminal.ansi.bright_cyan"@[21] != "terminal.ansi.bright_blue"@[21]);
    reveal_strlit("terminal.ansi.bright_magenta");
    assert("terminal.ansi.bright_cyan"@.len() != "terminal.ansi.bright_magenta"@.len());
}

proof fn lemma_zed_row_19()
    ensures
        zed_var("terminal.ansi.bright_white"@) == Some("--term-bright-white"@),
{
    reveal_strlit("terminal.ansi.bright_white");
    reveal_strlit("background");
    assert("terminal.ansi.bright_white"@.len() != "background"@.len());
    reveal_strlit("foreground");
    assert("terminal.ansi.bright_white"@.len() != "foreground"@.len());
    reveal_strlit("border");
    assert("terminal.ansi.bright_white"@.len() != "border"@.len());
    reveal_strlit("accent");
    assert("terminal.ansi.bright_white"@.len() != "accent"@.len());
    reveal_strlit("terminal.ansi.black");
    assert("terminal.ansi.bright_white"@.len() != "terminal.ansi.black"@.len());
    reveal_strlit("terminal.ansi.red");
    assert("terminal.ansi.bright_white"@.len() != "terminal.ansi.red"@.len());
    reveal_strlit("terminal.ansi.green");
    assert("terminal.ansi.bright_white"@.len() != "terminal.ansi.green"@.len());
    reveal_strlit("terminal.ansi.yellow");
    assert("terminal.ansi.bright_white"@.len() != "terminal.ansi.yellow"@.len());
    reveal_strlit("terminal.ansi.blue");
    assert("terminal.ansi.bright_white"@.len() != "terminal.ansi.blue"@.len());
    reveal_strlit("terminal.ansi.magenta");
    assert("terminal.ansi.bright_white"@.len() != "terminal.ansi.magenta"@.len());
    reveal_strlit("terminal.ansi.cyan");
    assert("terminal.ansi.bright_white"@.len() != "terminal.ansi.cyan"@.len());
    reveal_strlit("terminal.ansi.white");
    assert("terminal.ansi.bright_white"@.len() != "terminal.ansi.white"@.len());
    reveal_strlit("terminal.ansi.bright_black");
    assert("terminal.ansi.bright_white"@[21] != "terminal.ansi.bright_black"@[21]);
    reveal_strlit("terminal.ansi.bright_red");
    assert("terminal.ansi.bright_white"@.len() != "terminal.ansi.bright_red"@.len());
    reveal_strlit("terminal.ansi.bright_green");
    assert("terminal.ansi.bright_white"@[21] != "terminal.ansi.bright_green"@[21]);
    reveal_strlit("terminal.ansi.bright_yellow");
    assert("terminal.ansi.bright_white"@.len() != "terminal.ansi.bright_yellow"@.len());
    reveal_strlit("terminal.ansi.bright_blue");
    assert("terminal.ansi.bright_white"@.len() != "terminal.ansi.bright_blue"@.len());
    reveal_strlit("terminal.ansi.bright_magenta");
    assert("terminal.ansi.bright_white"@.len() != "terminal.ansi.bright_magenta"@.len());
    reveal_strlit("terminal.ansi.bright_cyan");
    assert("terminal.ansi.bright_white"@.len() != "terminal.ansi.bright_cyan"@.len());
}

/// The Zed key table, entry by entry.
proof fn lemma_zed_table()
    ensures
        zed_var("background"@) == Some("--bg-0"@),
        zed_var("foreground"@) == Some("--fg-0"@),
        zed_var("border"@) == Some("--border"@),
        zed_var("accent"@) == Some("--accent"@),
        zed_var("terminal.ansi.black"@) == Some("--term-black"@),
        zed_var("terminal.ansi.red"@) == Some("--term-red"@),
        zed_var("terminal.ansi.green"@) == Some("--term-green"@),
        zed_var("terminal.ansi.yellow"@) == Some("--term-yellow"@),
        zed_var("terminal.ansi.blue"@) == Some("--term-blue"@),
        zed_var("terminal.ansi.magenta"@) == Some("--term-magenta"@),
        zed_var("terminal.ansi.cyan"@) == Some("--term-cyan"@),
        zed_var("terminal.ansi.white"@) == Some("--term-white"@),
        zed_var("terminal.ansi.bright_black"@) == Some("--term-bright-black"@),
        zed_var("terminal.ansi.bright_red"@) == Some("--term-bright-red"@),
        zed_var("terminal.ansi.bright_green"@) == Some("--term-bright-green"@),
        zed_var("terminal.ansi.bright_yellow"@) == Some("--term-bright-yellow"@),
        zed_var("terminal.ansi.bright_blue"@) == Some("--term-bright-blue"@),
        zed_var("terminal.ansi.bright_magenta"@) == Some("--term-bright-magenta"@),
        zed_var("terminal.ansi.bright_cyan"@) == Some("--term-bright-cyan"@),
        zed_var("terminal.ansi.bright_white"@) == Some("--term-bright-white"@),
{
    lemma_zed_row_0();
    lemma_zed_row_1();
    lemma_zed_row_2();
    lemma_zed_row_3();
    lemma_zed_row_4();
    lemma_zed_row_5();
    lemma_zed_row_6();
    lemma_zed_row_7();
    lemma_zed_row_8();
    lemma_zed_row_9();
    lemma_zed_row_10();
    lemma_zed_row_11();
    lemma_zed_row_12();
    lemma_zed_row_13();
    lemma_zed_row_14();
    lemma_zed_row_15();
    lemma_zed_row_16();
    lemma_zed_row_17();
    lemma_zed_row_18();
    lemma_zed_row_19();
}

proof fn lemma_ansi_keys()
    ensures
        "terminal.ansi."@ + "black"@ == "terminal.ansi.black"@,
        "terminal.ansi.bright_"@ + "black"@ == "terminal.ansi.bright_black"@,
        "--term-"@ + "black"@ == "--term-black"@,
        "--term-bright-"@ + "black"@ == "--term-bright-black"@,
        "terminal.ansi."@ + "red"@ == "terminal.ansi.red"@,
        "terminal.ansi.bright_"@ + "red"@ == "terminal.ansi.bright_red"@,
        "--term-"@ + "red"@ == "--term-red"@,
        "--term-bright-"@ + "red"@ == "--term-bright-red"@,
        "terminal.ansi."@ + "green"@ == "terminal.ansi.green"@,
        "terminal.ansi.bright_"@ + "green"@ == "terminal.ansi.bright_green"@,
        "--term-"@ + "green"@ == "--term-green"@,
        "--term-bright-"@ + "green"@ == "--term-bright-green"@,
        "terminal.ansi."@ + "yellow"@ == "terminal.ansi.yellow"@,
        "terminal.ansi.bright_"@ + "yellow"@ == "terminal.ansi.bright_yellow"@,
        "--term-"@ + "yellow"@ == "--term-yellow"@,
        "--term-bright-"@ + "yellow"@ == "--term-bright-yellow"@,
        "terminal.ansi."@ + "blue"@ == "terminal.ansi.blue"@,
        "terminal.ansi.bright_"@ + "blue"@ == "terminal.ansi.bright_blue"@,
        "--term-"@ + "blue"@ == "--term-blue"@,
        "--term-bright-"@ + "blue"@ == "--term-bright-blue"@,
        "terminal.ansi."@ + "magenta"@ == "terminal.ansi.magenta"@,
        "terminal.ansi.bright_"@ + "magenta"@ == "terminal.ansi.bright_magenta"@,
        "--term-"@ + "magenta"@ == "--term-magenta"@,
        "--term-bright-"@ + "magenta"@ == "--term-bright-magenta"@,
        "terminal.ansi."@ + "cyan"@ == "terminal.ansi.cyan"@,
        "terminal.ansi.bright_"@ + "cyan"@ == "terminal.ansi.bright_cyan"@,
        "--term-"@ + "cyan"@ == "--term-cyan"@,
        "--term-bright-"@ + "cyan"@ == "--term-bright-cyan"@,
        "terminal.ansi."@ + "white"@ == "terminal.ansi.white"@,
        "terminal.ansi.bright_"@ + "white"@ == "terminal.ansi.bright_white"@,
        "--term-"@ + "white"@ == "--term-white"@,
        "--term-bright-"@ + "white"@ == "--term-bright-white"@,
{
    reveal_strlit("--accent");
    reveal_strlit("--bg-0");
    reveal_strlit("--border");
    reveal_strlit("--fg-0");
    reveal_strlit("--term-");
    reveal_strlit("--term-black");
    reveal_strlit("--term-blue");
    reveal_strlit("--term-bright-");
    reveal_strlit("--term-bright-black");
    reveal_strlit("--term-bright-blue");
    reveal_strlit("--term-bright-cyan");
    reveal_strlit("--term-bright-green");
    reveal_strlit("--term-bright-magenta");
    reveal_strlit("--term-bright-red");
    reveal_strlit("--term-bright-white");
    reveal_strlit("--term-bright-yellow");
    reveal_strlit("--term-cyan");
    reveal_strlit("--term-green");
    reveal_strlit("--term-magenta");
    reveal_strlit("--term-red");
    reveal_strlit("--term-white");
    reveal_strlit("--term-yellow");
    reveal_strlit("accent");
    reveal_strlit("background");
    reveal_strlit("black");
    reveal_strlit("blue");
    reveal_strlit("border");
    reveal_strlit("cyan");
    reveal_strlit("foreground");
    reveal_strlit("green");
    reveal_strlit("magenta");
    reveal_strlit("red");
    reveal_strlit("terminal.ansi.");
    reveal_strlit("terminal.ansi.black");
    reveal_strlit("terminal.ansi.blue");
    reveal_strlit("terminal.ansi.bright_");
    reveal_strlit("terminal.ansi.bright_black");
    reveal_strlit("terminal.ansi.bright_blue");
    reveal_strlit("terminal.ansi.bright_cyan");
    reveal_strlit("terminal.ansi.bright_green");
    reveal_strlit("terminal.ansi.bright_magenta");
    reveal_strlit("terminal.ansi.bright_red");
    reveal_strlit("terminal.ansi.bright_white");
    reveal_strlit("terminal.ansi.bright_yellow");
    reveal_strlit("terminal.ansi.cyan");
    reveal_strlit("terminal.ansi.green");
    reveal_strlit("terminal.ansi.magenta");
    reveal_strlit("terminal.ansi.red");
    reveal_strlit("terminal.ansi.white");
    reveal_strlit("terminal.ansi.yellow");
    reveal_strlit("white");
    reveal_strlit("yellow");
    assert("terminal.ansi."@ + "black"@ =~= "terminal.ansi.black"@);
    assert("terminal.ansi.bright_"@ + "black"@ =~= "terminal.ansi.bright_black"@);
    assert("--term-"@ + "black"@ =~= "--term-black"@);
    assert("--term-bright-"@ + "black"@ =~= "--term-bright-black"@);
    assert("terminal.ansi."@ + "red"@ =~= "terminal.ansi.red"@);
    assert("terminal.ansi.bright_"@ + "red"@ =~= "terminal.ansi.bright_red"@);
    assert("--term-"@ + "red"@ =~= "--term-red"@);
    assert("--term-bright-"@ + "red"@ =~= "--term-bright-red"@);
    assert("terminal.ansi."@ + "green"@ =~= "terminal.ansi.green"@);
    assert("terminal.ansi.bright_"@ + "green"@ =~= "terminal.ansi.bright_green"@);
    assert("--term-"@ + "green"@ =~= "--term-green"@);
    assert("--term-bright-"@ + "green"@ =~= "--term-bright-green"@);
    assert("terminal.ansi."@ + "yellow"@ =~= "terminal.ansi.yellow"@);
    assert("terminal.ansi.bright_"@ + "yellow"@ =~= "terminal.ansi.bright_yellow"@);
    assert("--term-"@ + "yellow"@ =~= "--term-yellow"@);
    assert("--term-bright-"@ + "yellow"@ =~= "--term-bright-yellow"@);
    assert("terminal.ansi."@ + "blue"@ =~= "terminal.ansi.blue"@);
    assert("terminal.ansi.bright_"@ + "blue"@ =~= "terminal.ansi.bright_blue"@);
    assert("--term-"@ + "blue"@ =~= "--term-blue"@);
    assert("--term-bright-"@ + "blue"@ =~= "--term-bright-blue"@);
    assert("terminal.ansi."@ + "magenta"@ =~= "terminal.ansi.magenta"@);
    assert("terminal.ansi.bright_"@ + "magenta"@ =~= "terminal.ansi.bright_magenta"@);
    assert("--term-"@ + "magenta"@ =~= "--term-magenta"@);
    assert("--term-bright-"@ + "magenta"@ =~= "--term-bright-magenta"@);
    assert("terminal.ansi."@ + "cyan"@ =~= "terminal.ansi.cyan"@);
    assert("terminal.ansi.bright_"@ + "cyan"@ =~= "terminal.ansi.bright_cyan"@);
    assert("--term-"@ + "cyan"@ =~= "--term-cyan"@);
    assert("--term-bright-"@ + "cyan"@ =~= "--term-bright-cyan"@);
    assert("terminal.ansi."@ + "white"@ =~= "terminal.ansi.white"@);
    assert("terminal.ansi.bright_"@ + "white"@ =~= "terminal.ansi.bright_white"@);
    assert("--term-"@ + "white"@ =~= "--term-white"@);
    assert("--term-bright-"@ + "white"@ =~= "--term-bright-white"@);
}

/// Importing Zed colours follows the documented table: a document holding
/// just `foreground`, `background`, `border` or `accent` gives a theme that
/// sets exactly `--fg-0`, `--bg-0`, `--border` or `--accent` to that value;
/// `terminal.ansi.<colour>` lands on `--term-<colour>` and
/// `terminal.ansi.bright_<colour>` on `--term-bright-<colour>` for every ANSI
/// colour; and a key outside the table is refused by name.
pub proof fn law_zed_keys_land_on_their_variables(value: Seq<char>, key: Seq<char>)
    ensures
        zed_import_of(one_key_doc("foreground"@, value)) == Ok::<Map<Seq<char>, Seq<char>>, Option<Seq<char>>>(Map::empty().insert("--fg-0"@, value)),
        zed_import_of(one_key_doc("background"@, value)) == Ok::<Map<Seq<char>, Seq<char>>, Option<Seq<char>>>(Map::empty().insert("--bg-0"@, value)),
        zed_import_of(one_key_doc("border"@, value)) == Ok::<Map<Seq<char>, Seq<char>>, Option<Seq<char>>>(Map::empty().insert("--border"@, value)),
        zed_import_of(one_key_doc("accent"@, value)) == Ok::<Map<Seq<char>, Seq<char>>, Option<Seq<char>>>(Map::empty().insert("--accent"@, value)),
        forall|i: int|
            0 <= i < ansi_colours().len() ==> zed_import_of(
                one_key_doc("terminal.ansi."@ + #[trigger] ansi_colours()[i], value),
            ) == Ok::<Map<Seq<char>, Seq<char>>, Option<Seq<char>>>(Map::empty().insert("--term-"@ + ansi_colours()[i], value)),
        forall|i: int|
            0 <= i < ansi_colours().len() ==> zed_import_of(
                one_key_doc("terminal.ansi.bright_"@ + #[trigger] ansi_colours()[i], value),
            ) == Ok::<Map<Seq<char>, Seq<char>>, Option<Seq<char>>>(Map::empty().insert("--term-bright-"@ + ansi_colours()[i], value)),
        zed_var(key) is None ==> zed_import_of(one_key_doc(key, value)) == Err::<Map<Seq<char>, Seq<char>>, Option<Seq<char>>>(Some(key)),
{
    lemma_zed_table();
    lemma_ansi_keys();
    lemma_one_key_import(key, value);
    lemma_one_key_import("foreground"@, value);
    lemma_one_key_import("background"@, value);
    lemma_one_key_import("border"@, value);
    lemma_one_key_import("accent"@, value);
    assert forall|i: int| 0 <= i < ansi_colours().len() implies zed_import_of(
        one_key_doc("terminal.ansi."@ + #[trigger] ansi_colours()[i], value),
    ) == Ok::<Map<Seq<char>, Seq<char>>, Option<Seq<char>>>(Map::empty().insert("--term-"@ + ansi_colours()[i], value)) by {
        lemma_one_key_import("terminal.ansi."@ + ansi_colours()[i], value);
    }
    assert forall|i: int| 0 <= i < ansi_colours().len() implies zed_import_of(
        one_key_doc("terminal.ansi.bright_"@ + #[trigger] ansi_colours()[i], value),
    ) == Ok::<Map<Seq<char>, Seq<char>>, Option<Seq<char>>>(Map::empty().insert("--term-bright-"@ + ansi_colours()[i], value)) by {
        lemma_one_key_import("terminal.ansi.bright_"@ + ansi_colours()[i], value);
    }
}

} // verus!
