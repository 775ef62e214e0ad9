//! Opaline theme source.
//!
//! Adopts the `opaline` token-based theme engine as a theme source: its
//! builtin themes (Catppuccin, Rose Pine, Tokyo Night, Nord, …) are mapped
//! onto the OpenKite CSS variable contract ([`crate::theme::CSS_VARS`]).
//!
//! Mapping strategy: each OpenKite variable resolves from an opaline semantic
//! token (`bg.base`, `text.primary`, `accent.primary`, `success`, …), falling
//! back to a palette entry, then to a neutral default. Opaline themes do not
//! carry ANSI brights, so `--term-bright-*` is derived by lightening the base
//! hue a quarter of the way toward white.

use vstd::prelude::*;

use crate::text::{chars_of, is_prefix, push_char, text_eq, text_starts_with};
use crate::theme::{KiteTheme, CSS_VARS};
use crate::theme_catalog::default_ids;

verus! {

/// opaline's resolved theme, carried as an opaque value.
#[verifier::external_type_specification]
#[verifier::external_body]
pub struct ExOpalineTheme(opaline::Theme);

/// An opaline builtin theme, together with the id it was loaded by.
pub struct OpalineTheme {
    id: String,
    theme: opaline::Theme,
}

impl View for OpalineTheme {
    type V = Seq<char>;

    /// The id the theme was loaded by.
    closed spec fn view(&self) -> Seq<char> {
        self.id@
    }
}

/// Whether opaline has a builtin theme under `name` (`"default"` names
/// SilkCircuit Neon).
pub uninterp spec fn opaline_has_builtin(name: Seq<char>) -> bool;

/// The colour, as `(r, g, b)`, that token or palette name `token` resolves to
/// in the opaline builtin theme `id`, if it is defined there.
pub uninterp spec fn opaline_token_rgb(id: Seq<char>, token: Seq<char>) -> Option<(u8, u8, u8)>;

/// Loads a builtin theme with `opaline::load_by_name`. Trusted: the result is
/// `Some` exactly when opaline has a builtin of that name, and is remembered
/// with the name it was loaded by. Builtin themes are compiled into opaline,
/// so the theme is a function of the name alone.
#[verifier::external_body]
fn load_builtin(name: &str) -> (r: Option<OpalineTheme>)
    ensures
        r is Some == opaline_has_builtin(name@),
        r matches Some(t) ==> t@ == name@,
{
    match opaline::load_by_name(name) {
        Some(theme) => Some(OpalineTheme { id: name.to_string(), theme }),
        None => None,
    }
}

/// Resolves a token (then a palette name) with `opaline::Theme::try_color`,
/// as `(r, g, b)`. Trusted: the colour depends only on the theme's id and on
/// `token`.
#[verifier::external_body]
fn token_rgb(theme: &OpalineTheme, token: &str) -> (r: Option<(u8, u8, u8)>)
    ensures
        r == opaline_token_rgb(theme@, token@),
{
    match theme.theme.try_color(token) {
        Some(c) => Some(c.to_rgb_tuple()),
        None => None,
    }
}

/// The lower-case hexadecimal digit for `n` (below sixteen).
pub open spec fn hex_lower(n: nat) -> char {
    if n < 10 {
        (48 + n) as char
    } else {
        (87 + n) as char
    }
}

/// A byte as two lower-case hexadecimal digits.
pub open spec fn hex_byte(b: u8) -> Seq<char> {
    seq![hex_lower((b / 16) as nat), hex_lower((b % 16) as nat)]
}

/// A colour as `#rrggbb` with lower-case digits.
pub open spec fn hex_color(c: (u8, u8, u8)) -> Seq<char> {
    seq!['#'] + hex_byte(c.0) + hex_byte(c.1) + hex_byte(c.2)
}

/// The lower-case hexadecimal digit for `n`.
fn hex_digit(n: u8) -> (r: char)
    requires
        n < 16,
    ensures
        r == hex_lower(n as nat),
{
    if n < 10 {
        (48 + n) as char
    } else {
        (87 + n) as char
    }
}

/// Appends a byte as two lower-case hexadecimal digits.
fn push_hex_byte(s: &mut String, b: u8)
    ensures
        final(s)@ == old(s)@ + hex_byte(b),
{
    push_char(s, hex_digit(b / 16));
    push_char(s, hex_digit(b % 16));
    assert(final(s)@ =~= old(s)@ + hex_byte(b));
}

/// A colour as `#rrggbb` with lower-case digits, the format of opaline's
/// `OpalineColor::to_hex`.
fn color_hex(c: (u8, u8, u8)) -> (r: String)
    ensures
        r@ == hex_color(c),
{
    let mut s = String::new();
    push_char(&mut s, '#');
    push_hex_byte(&mut s, c.0);
    push_hex_byte(&mut s, c.1);
    push_hex_byte(&mut s, c.2);
    assert(s@ =~= hex_color(c));
    s
}

/// One channel moved a quarter of the way toward white, rounded half up:
/// `round(0.75 * c + 63.75)`, which is what opaline's `lighten(0.25)` computes
/// on each channel (every intermediate value is exact in `f32`).
pub open spec fn lighten_channel(c: u8) -> u8 {
    ((3 * c + 257) / 4) as u8
}

/// A colour moved a quarter of the way toward white.
pub open spec fn lighten_quarter(c: (u8, u8, u8)) -> (u8, u8, u8) {
    (lighten_channel(c.0), lighten_channel(c.1), lighten_channel(c.2))
}

fn lighten_rgb(c: (u8, u8, u8)) -> (r: (u8, u8, u8))
    ensures
        r == lighten_quarter(c),
{
    let r = ((3 * (c.0 as u16) + 257) / 4) as u8;
    let g = ((3 * (c.1 as u16) + 257) / 4) as u8;
    let b = ((3 * (c.2 as u16) + 257) / 4) as u8;
    (r, g, b)
}

/// OpenKite variable → (opaline token, palette fallback, neutral default).
pub open spec fn mapping_of(var: Seq<char>) -> Option<(Seq<char>, Seq<char>, Seq<char>)> {
    if var == "--bg-0"@ {
        Some(("bg.base"@, "base"@, "#f5f7fa"@))
    } else if var == "--bg-1"@ {
        Some(("bg.panel"@, "panel"@, "#ffffff"@))
    } else if var == "--bg-2"@ {
        Some(("bg.elevated"@, "surface1"@, "#f3f4f6"@))
    } else if var == "--border"@ {
        Some(("border.unfocused"@, "overlay0"@, "#e2e4e9"@))
    } else if var == "--fg-0"@ {
        Some(("text.primary"@, "text"@, "#1e2024"@))
    } else if var == "--fg-1"@ {
        Some(("text.secondary"@, "subtext1"@, "#383a42"@))
    } else if var == "--fg-2"@ {
        Some(("text.muted"@, "subtext0"@, "#6b7280"@))
    } else if var == "--accent"@ {
        Some(("accent.primary"@, "blue"@, "#4d8ce8"@))
    } else if var == "--green"@ {
        Some(("success"@, "green"@, "#4d9a5e"@))
    } else if var == "--yellow"@ {
        Some(("warning"@, "yellow"@, "#c4841d"@))
    } else if var == "--red"@ {
        Some(("error"@, "red"@, "#e05252"@))
    } else if var == "--violet"@ {
        Some(("accent.tertiary"@, "mauve"@, "#8b5cf6"@))
    } else if var == "--term-black"@ {
        Some(("bg.base"@, "black"@, "#1e2024"@))
    } else if var == "--term-red"@ {
        Some(("error"@, "red"@, "#e05252"@))
    } else if var == "--term-green"@ {
        Some(("success"@, "green"@, "#4d9a5e"@))
    } else if var == "--term-yellow"@ {
        Some(("warning"@, "yellow"@, "#c4841d"@))
    } else if var == "--term-blue"@ {
        Some(("accent.secondary"@, "blue"@, "#4d8ce8"@))
    } else if var == "--term-magenta"@ {
        Some(("accent.primary"@, "mauve"@, "#8b5cf6"@))
    } else if var == "--term-cyan"@ {
        Some(("info"@, "teal"@, "#2dd4bf"@))
    } else if var == "--term-white"@ {
        Some(("text.primary"@, "text"@, "#abb2bf"@))
    } else {
        None
    }
}

/// The mapping row of an OpenKite variable, if it has one.
pub fn mapping_row(var: &str) -> (r: Option<(&'static str, &'static str, &'static str)>)
    ensures
        match r {
            Some((t, f, d)) => mapping_of(var@) == Some((t@, f@, d@)),
            None => mapping_of(var@) is None,
        },
{
    if text_eq(var, "--bg-0") {
        Some(("bg.base", "base", "#f5f7fa"))
    } else if text_eq(var, "--bg-1") {
        Some(("bg.panel", "panel", "#ffffff"))
    } else if text_eq(var, "--bg-2") {
        Some(("bg.elevated", "surface1", "#f3f4f6"))
    } else if text_eq(var, "--border") {
        Some(("border.unfocused", "overlay0", "#e2e4e9"))
    } else if text_eq(var, "--fg-0") {
        Some(("text.primary", "text", "#1e2024"))
    } else if text_eq(var, "--fg-1") {
        Some(("text.secondary", "subtext1", "#383a42"))
    } else if text_eq(var, "--fg-2") {
        Some(("text.muted", "subtext0", "#6b7280"))
    } else if text_eq(var, "--accent") {
        Some(("accent.primary", "blue", "#4d8ce8"))
    } else if text_eq(var, "--green") {
        Some(("success", "green", "#4d9a5e"))
    } else if text_eq(var, "--yellow") {
        Some(("warning", "yellow", "#c4841d"))
    } else if text_eq(var, "--red") {
        Some(("error", "red", "#e05252"))
    } else if text_eq(var, "--violet") {
        Some(("accent.tertiary", "mauve", "#8b5cf6"))
    } else if text_eq(var, "--term-black") {
        Some(("bg.base", "black", "#1e2024"))
    } else if text_eq(var, "--term-red") {
        Some(("error", "red", "#e05252"))
    } else if text_eq(var, "--term-green") {
        Some(("success", "green", "#4d9a5e"))
    } else if text_eq(var, "--term-yellow") {
        Some(("warning", "yellow", "#c4841d"))
    } else if text_eq(var, "--term-blue") {
        Some(("accent.secondary", "blue", "#4d8ce8"))
    } else if text_eq(var, "--term-magenta") {
        Some(("accent.primary", "mauve", "#8b5cf6"))
    } else if text_eq(var, "--term-cyan") {
        Some(("info", "teal", "#2dd4bf"))
    } else if text_eq(var, "--term-white") {
        Some(("text.primary", "text", "#abb2bf"))
    } else {
        None
    }
}

/// The prefix of the derived bright terminal variables.
pub open spec fn bright_prefix() -> Seq<char> {
    "--term-bright-"@
}

/// The normal terminal variable a bright one is derived from.
pub open spec fn base_of_bright(var: Seq<char>) -> Seq<char> {
    "--term-"@ + var.skip(bright_prefix().len() as int)
}

/// A colour resolved through token, then palette name, then default.
pub open spec fn resolved_color(
    id: Seq<char>,
    row: (Seq<char>, Seq<char>, Seq<char>),
    lightened: bool,
) -> Seq<char> {
    let found = match opaline_token_rgb(id, row.0) {
        Some(c) => Some(c),
        None => opaline_token_rgb(id, row.1),
    };
    match found {
        Some(c) => if lightened {
            hex_color(lighten_quarter(c))
        } else {
            hex_color(c)
        },
        None => row.2,
    }
}

/// The value the opaline theme `id` gives an OpenKite variable: bright
/// terminal colours lighten their base hue; every other variable resolves
/// through its own mapping row.
pub open spec fn var_value(id: Seq<char>, var: Seq<char>) -> Seq<char> {
    if is_prefix(bright_prefix(), var) {
        match mapping_of(base_of_bright(var)) {
            Some(row) => resolved_color(id, row, true),
            None => Seq::empty(),
        }
    } else {
        match mapping_of(var) {
            Some(row) => resolved_color(id, row, false),
            None => Seq::empty(),
        }
    }
}

/// Whether `row` is a mapping row with a non-empty default.
pub open spec fn has_default(row: Option<(Seq<char>, Seq<char>, Seq<char>)>) -> bool {
    match row {
        Some(r) => r.2.len() > 0,
        None => false,
    }
}

/// Whether the value of `var` can be derived: it has a mapping row, or is a
/// bright variable whose base has one.
pub open spec fn is_mapped(var: Seq<char>) -> bool {
    if is_prefix(bright_prefix(), var) {
        has_default(mapping_of(base_of_bright(var)))
    } else {
        has_default(mapping_of(var))
    }
}

/// The names of the CSS contract, by their characters.
pub open spec fn contract_vars() -> Seq<Seq<char>> {
    CSS_VARS@.map_values(|v: &'static str| v@)
}

/// The variables `vars` take in the opaline theme `id`.
pub open spec fn mapped_vars(id: Seq<char>, vars: Seq<Seq<char>>) -> Map<Seq<char>, Seq<char>>
    decreases vars.len(),
{
    if vars.len() == 0 {
        Map::empty()
    } else {
        mapped_vars(id, vars.drop_last()).insert(vars.last(), var_value(id, vars.last()))
    }
}

/// The OpenKite theme the opaline theme `id` maps onto.
pub open spec fn opaline_vars(id: Seq<char>) -> Map<Seq<char>, Seq<char>> {
    mapped_vars(id, contract_vars())
}

proof fn lemma_contract_is_mapped()
    ensures
        forall|i: int| 0 <= i < contract_vars().len() ==> is_mapped(#[trigger] contract_vars()[i]),
{
    reveal_strlit("#1e2024");
    reveal_strlit("#2dd4bf");
    reveal_strlit("#383a42");
    reveal_strlit("#4d8ce8");
    reveal_strlit("#4d9a5e");
    reveal_strlit("#6b7280");
    reveal_strlit("#8b5cf6");
    reveal_strlit("#abb2bf");
    reveal_strlit("#c4841d");
    reveal_strlit("#e05252");
    reveal_strlit("#e2e4e9");
    reveal_strlit("#f3f4f6");
    reveal_strlit("#f5f7fa");
    reveal_strlit("#ffffff");
    reveal_strlit("--accent");
    reveal_strlit("--bg-0");
    reveal_strlit("--bg-1");
    reveal_strlit("--bg-2");
    reveal_strlit("--border");
    reveal_strlit("--fg-0");
    reveal_strlit("--fg-1");
    reveal_strlit("--fg-2");
    reveal_strlit("--green");
    reveal_strlit("--red");
    reveal_strlit("--term-");
    reveal_strlit("--term-black");
    reveal_strlit("--term-blue");
    reveal_strlit("--term-bright-");
    reveal_strlit("--term-bright-black");
    reveal_strlit("--term-bright-blue");
    reveal_strlit("--term-bright-cyan");
    reveal_strlit("--term-bright-green");
    reveal_strlit("--term-bright-magenta");
    reveal_strlit("--term-bright-red");
    reveal_strlit("--term-bright-white");
    reveal_strlit("--term-bright-yellow");
    reveal_strlit("--term-cyan");
    reveal_strlit("--term-green");
    reveal_strlit("--term-magenta");
    reveal_strlit("--term-red");
    reveal_strlit("--term-white");
    reveal_strlit("--term-yellow");
    reveal_strlit("--violet");
    reveal_strlit("--yellow");
    assert(contract_vars() =~= seq!["--bg-0"@, "--bg-1"@, "--bg-2"@, "--border"@, "--fg-0"@, "--fg-1"@, "--fg-2"@, "--accent"@, "--green"@, "--yellow"@, "--red"@, "--violet"@, "--term-black"@, "--term-red"@, "--term-green"@, "--term-yellow"@, "--term-blue"@, "--term-magenta"@, "--term-cyan"@, "--term-white"@, "--term-bright-black"@, "--term-bright-red"@, "--term-bright-green"@, "--term-bright-yellow"@, "--term-bright-blue"@, "--term-bright-magenta"@, "--term-bright-cyan"@, "--term-bright-white"@]);
    assert(is_mapped("--bg-0"@));
    assert(is_mapped("--bg-1"@));
    assert(is_mapped("--bg-2"@));
    assert(is_mapped("--border"@));
    assert(is_mapped("--fg-0"@));
    assert(is_mapped("--fg-1"@));
    assert(is_mapped("--fg-2"@));
    assert(is_mapped("--accent"@));
    assert(is_mapped("--green"@));
    assert(is_mapped("--yellow"@));
    assert(is_mapped("--red"@));
    assert(is_mapped("--violet"@));
    assert(is_mapped("--term-black"@));
    assert(is_mapped("--term-red"@));
    assert(is_mapped("--term-green"@));
    assert(is_mapped("--term-yellow"@));
    assert(is_mapped("--term-blue"@));
    assert(is_mapped("--term-magenta"@)) by {
        assert("--term-magenta"@[7] != bright_prefix()[7]);
    }
    assert(is_mapped("--term-cyan"@));
    assert(is_mapped("--term-white"@));
    assert(is_mapped("--term-bright-black"@)) by {
        assert("--term-bright-black"@.subrange(0, 14) =~= bright_prefix());
        assert(base_of_bright("--term-bright-black"@) =~= "--term-black"@);
    }
    assert(is_mapped("--term-bright-red"@)) by {
        assert("--term-bright-red"@.subrange(0, 14) =~= bright_prefix());
        assert(base_of_bright("--term-bright-red"@) =~= "--term-red"@);
    }
    assert(is_mapped("--term-bright-green"@)) by {
        assert("--term-bright-green"@.subrange(0, 14) =~= bright_prefix());
        assert(base_of_bright("--term-bright-green"@) =~= "--term-green"@);
    }
    assert(is_mapped("--term-bright-yellow"@)) by {
        assert("--term-bright-yellow"@.subrange(0, 14) =~= bright_prefix());
        assert(base_of_bright("--term-bright-yellow"@) =~= "--term-yellow"@);
    }
    assert(is_mapped("--term-bright-blue"@)) by {
        assert("--term-bright-blue"@.subrange(0, 14) =~= bright_prefix());
        assert(base_of_bright("--term-bright-blue"@) =~= "--term-blue"@);
    }
    assert(is_mapped("--term-bright-magenta"@)) by {
        assert("--term-bright-magenta"@.subrange(0, 14) =~= bright_prefix());
        assert(base_of_bright("--term-bright-magenta"@) =~= "--term-magenta"@);
    }
    assert(is_mapped("--term-bright-cyan"@)) by {
        assert("--term-bright-cyan"@.subrange(0, 14) =~= bright_prefix());
        assert(base_of_bright("--term-bright-cyan"@) =~= "--term-cyan"@);
    }
    assert(is_mapped("--term-bright-white"@)) by {
        assert("--term-bright-white"@.subrange(0, 14) =~= bright_prefix());
        assert(base_of_bright("--term-bright-white"@) =~= "--term-white"@);
    }
}

proof fn lemma_value_nonempty(id: Seq<char>, var: Seq<char>)
    requires
        is_mapped(var),
    ensures
        var_value(id, var).len() > 0,
{
}

proof fn lemma_mapped_vars(id: Seq<char>, vars: Seq<Seq<char>>)
    requires
        forall|k: int| 0 <= k < vars.len() ==> is_mapped(#[trigger] vars[k]),
    ensures
        forall|k: int|
            0 <= k < vars.len() ==> #[trigger] mapped_vars(id, vars).contains_key(vars[k])
                && mapped_vars(id, vars)[vars[k]].len() > 0,
    decreases vars.len(),
{
    if vars.len() > 0 {
        let init = vars.drop_last();
        assert forall|k: int| 0 <= k < init.len() implies is_mapped(#[trigger] init[k]) by {
            assert(init[k] == vars[k]);
        }
        lemma_mapped_vars(id, init);
        lemma_value_nonempty(id, vars.last());
        assert forall|k: int| 0 <= k < vars.len() implies #[trigger] mapped_vars(
            id,
            vars,
        ).contains_key(vars[k]) && mapped_vars(id, vars)[vars[k]].len() > 0 by {
            let m = mapped_vars(id, init);
            assert(mapped_vars(id, vars) == m.insert(vars.last(), var_value(id, vars.last())));
            if vars[k] != vars.last() {
                assert(init[k] == vars[k]);
                assert(m.contains_key(init[k]));
            }
        }
    }
}

proof fn lemma_mapped_vars_domain(id: Seq<char>, vars: Seq<Seq<char>>)
    ensures
        forall|key: Seq<char>| #[trigger]
            mapped_vars(id, vars).contains_key(key) <==> vars.contains(key),
    decreases vars.len(),
{
    if vars.len() > 0 {
        let init = vars.drop_last();
        lemma_mapped_vars_domain(id, init);
        assert forall|key: Seq<char>| #[trigger]
            mapped_vars(id, vars).contains_key(key) <==> vars.contains(key) by {
            assert(mapped_vars(id, vars) == mapped_vars(id, init).insert(
                vars.last(),
                var_value(id, vars.last()),
            ));
            assert(mapped_vars(id, init).contains_key(key) <==> init.contains(key));
            if key == vars.last() {
                assert(vars[vars.len() - 1] == key);
            } else if init.contains(key) {
                let i = choose|i: int| 0 <= i < init.len() && init[i] == key;
                assert(vars[i] == key);
            } else if vars.contains(key) {
                let i = choose|i: int| 0 <= i < vars.len() && vars[i] == key;
                assert(init[i] == key);
            }
        }
    }
}

/// Every opaline theme maps onto exactly the OpenKite contract: each variable
/// of `CSS_VARS` gets a non-empty value, and no other variable is set.
pub proof fn law_opaline_theme_covers_contract(id: Seq<char>)
    ensures
        forall|i: int|
            0 <= i < contract_vars().len() ==> #[trigger] opaline_vars(id).contains_key(
                contract_vars()[i],
            ) && opaline_vars(id)[contract_vars()[i]].len() > 0,
        forall|key: Seq<char>| #[trigger]
            opaline_vars(id).contains_key(key) <==> contract_vars().contains(key),
{
    lemma_contract_is_mapped();
    lemma_mapped_vars(id, contract_vars());
    lemma_mapped_vars_domain(id, contract_vars());
    assert forall|i: int| 0 <= i < contract_vars().len() implies #[trigger] opaline_vars(
        id,
    ).contains_key(contract_vars()[i]) && opaline_vars(id)[contract_vars()[i]].len() > 0 by {
        assert(mapped_vars(id, contract_vars()).contains_key(contract_vars()[i]));
    }
}

/// The colour for a mapping row, resolved in `theme`.
fn row_color(theme: &OpalineTheme, row: (&str, &str, &str), lightened: bool) -> (r: String)
    ensures
        r@ == resolved_color(theme@, (row.0@, row.1@, row.2@), lightened),
{
    let found = match token_rgb(theme, row.0) {
        Some(c) => Some(c),
        None => token_rgb(theme, row.1),
    };
    match found {
        Some(c) => if lightened {
            color_hex(lighten_rgb(c))
        } else {
            color_hex(c)
        },
        None => String::from_str(row.2),
    }
}

/// The base variable of a bright terminal variable: `--term-bright-x` becomes
/// `--term-x`.
fn base_var(var: &str) -> (r: String)
    requires
        is_prefix(bright_prefix(), var@),
    ensures
        r@ == base_of_bright(var@),
{
    proof {
        reveal_strlit("--term-bright-");
    }
    let v = chars_of(var);
    let mut out = String::from_str("--term-");
    let mut i: usize = 14;
    while i < v.len()
        invariant
            v@ == var@,
            14 <= i <= v@.len(),
            out@ == "--term-"@ + var@.subrange(14, i as int),
        decreases v@.len() - i,
    {
        push_char(&mut out, v[i]);
        i = i + 1;
        assert(out@ =~= "--term-"@ + var@.subrange(14, i as int));
    }
    assert(var@.subrange(14, i as int) =~= var@.skip(14));
    out
}

/// Build an OpenKite [`KiteTheme`] from an opaline theme, covering the full
/// `CSS_VARS` contract (including the derived terminal brights).
pub fn theme_from_opaline(theme: &OpalineTheme) -> (r: KiteTheme)
    ensures
        r.wf(),
        r@ == opaline_vars(theme@),
{
    proof {
        lemma_contract_is_mapped();
    }
    let vars = CSS_VARS;
    let ghost cv = contract_vars();
    let mut out = KiteTheme::new();
    let mut i: usize = 0;
    while i < vars.len()
        invariant
            vars@ == CSS_VARS@,
            cv == contract_vars(),
            cv.len() == vars@.len(),
            forall|k: int| 0 <= k < cv.len() ==> is_mapped(#[trigger] cv[k]),
            i <= vars@.len(),
            out.wf(),
            out@ == mapped_vars(theme@, cv.subrange(0, i as int)),
        decreases vars@.len() - i,
    {
        let var = vars[i];
        assert(var@ == cv[i as int]);
        let value = if text_starts_with(var, "--term-bright-") {
            let base = base_var(var);
            match mapping_row(base.as_str()) {
                Some(row) => row_color(theme, row, true),
                None => String::new(),
            }
        } else {
            match mapping_row(var) {
                Some(row) => row_color(theme, row, false),
                None => String::new(),
            }
        };
        assert(value@ == var_value(theme@, var@));
        out = out.with_var(var, value.as_str());
        proof {
            assert(cv.subrange(0, i + 1).drop_last() =~= cv.subrange(0, i as int));
        }
        i = i + 1;
    }
    assert(cv.subrange(0, i as int) =~= cv);
    out
}

/// A listable opaline theme: `(kebab id, display name, variant)`.
#[derive(Debug, Clone)]
pub struct OpalineThemeInfo {
    pub id: String,
    pub display_name: String,
    pub variant: String,
}

/// Whether some listed theme has id `id`.
pub open spec fn lists_id(s: Seq<OpalineThemeInfo>, id: Seq<char>) -> bool {
    exists|i: int| 0 <= i < s.len() && (#[trigger] s[i]).id@ == id
}

/// Lists opaline's available themes with `opaline::list_available_themes`,
/// each with its variant as `"dark"` or `"light"`. Trusted: with opaline's
/// `discovery` feature off (as in this build) the list is its compiled-in
/// registry, one entry per bundled theme file (`src/builtins/*.toml`), each
/// loaded by its id and deduplicated by id. So the listed ids are exactly
/// the ids opaline loads a builtin by, apart from the `"default"` alias; no
/// id is listed twice; and the bundled One Light, One Dark, Catppuccin
/// Mocha, Tokyo Night and Rosé Pine themes (the curated defaults) are
/// listed. The display names, the variants and the order are not stated.
#[verifier::external_body]
pub fn list_opaline_themes() -> (r: Vec<OpalineThemeInfo>)
    ensures
        forall|i: int| 0 <= i < r@.len() ==> opaline_has_builtin(#[trigger] r@[i].id@),
        forall|id: Seq<char>|
            opaline_has_builtin(id) && id != "default"@ ==> #[trigger] lists_id(r@, id),
        forall|i: int, j: int|
            0 <= i < j < r@.len() ==> #[trigger] r@[i].id@ != #[trigger] r@[j].id@,
        forall|k: int| 0 <= k < default_ids().len() ==> lists_id(r@, #[trigger] default_ids()[k]),
{
    let mut out = Vec::new();
    for info in opaline::list_available_themes() {
        let variant = match info.variant {
            opaline::ThemeVariant::Dark => "dark",
            opaline::ThemeVariant::Light => "light",
        };
        out.push(OpalineThemeInfo { id: info.name, display_name: info.display_name, variant: variant.to_string() });
    }
    out
}

/// The message for a name opaline has no builtin under.
pub open spec fn unknown_theme_text(name: Seq<char>) -> Seq<char> {
    "unknown opaline theme: "@ + name
}

/// Load an opaline builtin by kebab-case id (e.g. `"catppuccin-mocha"`;
/// `"default"` aliases `"silkcircuit-neon"`).
pub fn load_opaline(name: &str) -> (r: Result<OpalineTheme, String>)
    ensures
        r is Ok == opaline_has_builtin(name@),
        r matches Ok(t) ==> t@ == name@,
        r matches Err(e) ==> e@ == unknown_theme_text(name@),
{
    match load_builtin(name) {
        Some(t) => Ok(t),
        None => {
            let mut e = String::from_str("unknown opaline theme: ");
            e.append(name);
            Err(e)
        },
    }
}

/// Load an opaline theme by id and map it onto the OpenKite contract.
pub fn load_and_map(name: &str) -> (r: Result<KiteTheme, String>)
    ensures
        r is Ok == opaline_has_builtin(name@),
        r matches Ok(t) ==> t.wf() && t@ == opaline_vars(name@),
        r matches Err(e) ==> e@ == unknown_theme_text(name@),
{
    match load_opaline(name) {
        Ok(t) => Ok(theme_from_opaline(&t)),
        Err(e) => Err(e),
    }
}

} // verus!
