//! Overrides of picture settings by environment variables, for test harnesses. A
//! variable that is not set or cannot be read changes nothing.
use vstd::prelude::*;
use crate::item_settings::ItemSettings;
use crate::pipeline::{BgEffect, FillStyle, LineMode, Rgba, Scalar};
use crate::text::{
    hex_digit, hex_pair, hex_pairs_are_two_digits, lowered, read_hex_pair, same_chars, to_lowered, trim, trimmed,
};

verus! {

/// A value without white space around it and with small letters.
pub open spec fn plain_word(s: Seq<char>) -> Seq<char> {
    lowered(trimmed(s))
}

/// The characters of a value without white space around it, in small letters.
fn to_plain_word(s: &str) -> (r: Vec<char>)
    ensures
        r@ == plain_word(s@),
{
    to_lowered(&trim(s))
}

/// Whether a word is the given one.
fn word_is(word: &Vec<char>, text: &str) -> (r: bool)
    ensures
        r == (word@ == text@),
{
    let t = crate::text::chars_of(text);
    same_chars(word, &t)
}

/// A truth value.
pub open spec fn bool_word(w: Seq<char>) -> Option<bool> {
    if w == "1"@ || w == "true"@ || w == "yes"@ || w == "on"@ {
        Some(true)
    } else if w == "0"@ || w == "false"@ || w == "no"@ || w == "off"@ {
        Some(false)
    } else {
        None
    }
}

/// Reads a truth value.
pub fn read_bool(value: &str) -> (r: Option<bool>)
    ensures
        r == bool_word(plain_word(value@)),
{
    let w = to_plain_word(value);
    if word_is(&w, "1") || word_is(&w, "true") || word_is(&w, "yes") || word_is(&w, "on") {
        Some(true)
    } else if word_is(&w, "0") || word_is(&w, "false") || word_is(&w, "no") || word_is(&w, "off") {
        Some(false)
    } else {
        None
    }
}

/// Whether pictures are processed as soon as they are added, where the variable
/// says so.
pub fn auto_process_override(value: Option<&str>) -> (r: Option<bool>)
    ensures
        r == match value {
            Some(v) => bool_word(plain_word(v@)),
            None => None,
        },
{
    match value {
        Some(v) => read_bool(v),
        None => None,
    }
}

/// A text without leading number signs.
pub open spec fn no_number_signs(s: Seq<char>) -> Seq<char>
    decreases s.len(),
{
    if s.len() > 0 && s[0] == '#' {
        no_number_signs(s.skip(1))
    } else {
        s
    }
}

/// A colour in hexadecimal, with alpha or without; opaque without.
pub open spec fn rgba_digits(d: Seq<char>) -> Option<Rgba> {
    if d.len() != 6 && d.len() != 8 {
        None
    } else {
        let a = if d.len() == 8 {
            hex_pair(d[6], d[7])
        } else {
            Some(255int)
        };
        match (hex_pair(d[0], d[1]), hex_pair(d[2], d[3]), hex_pair(d[4], d[5]), a) {
            (Some(r), Some(g), Some(b), Some(a)) => Some(
                Rgba { r: r as u8, g: g as u8, b: b as u8, a: a as u8 },
            ),
            _ => None,
        }
    }
}

/// Reads a colour such as `ff8000`, `#ff8000` or `ff800080`.
pub fn read_hex_rgba(value: &str) -> (r: Option<Rgba>)
    ensures
        r == rgba_digits(no_number_signs(trimmed(value@))),
{
    let v = trim(value);
    let mut at: usize = 0;
    assert(v@.skip(0) =~= v@);
    while at < v.len() && v[at] == '#'
        invariant
            at <= v@.len(),
            no_number_signs(v@) == no_number_signs(v@.skip(at as int)),
        decreases v@.len() - at,
    {
        assert(v@.skip(at as int).skip(1) =~= v@.skip(at as int + 1));
        at += 1;
    }
    let n: usize = v.len() - at;
    if n != 6 && n != 8 {
        return None;
    }
    let alpha: Option<u8> = if n == 8 {
        read_hex_pair(v[at + 6], v[at + 7])
    } else {
        Some(255)
    };
    match (
        read_hex_pair(v[at], v[at + 1]),
        read_hex_pair(v[at + 2], v[at + 3]),
        read_hex_pair(v[at + 4], v[at + 5]),
        alpha,
    ) {
        (Some(r), Some(g), Some(b), Some(a)) => Some(Rgba { r, g, b, a }),
        _ => None,
    }
}

/// A line mode by name.
pub open spec fn line_mode_word(w: Seq<char>) -> Option<LineMode> {
    if w == "off"@ {
        Some(LineMode::Off)
    } else if w == "edges"@ || w == "edges_only"@ || w == "edgesonly"@ {
        Some(LineMode::EdgesOnly)
    } else if w == "subject"@ || w == "subject_outline"@ || w == "subjectoutline"@ {
        Some(LineMode::SubjectOutline)
    } else {
        None
    }
}

/// Reads a line mode.
pub fn read_line_mode(value: &str) -> (r: Option<LineMode>)
    ensures
        r == line_mode_word(plain_word(value@)),
{
    let w = to_plain_word(value);
    if word_is(&w, "off") {
        Some(LineMode::Off)
    } else if word_is(&w, "edges") || word_is(&w, "edges_only") || word_is(&w, "edgesonly") {
        Some(LineMode::EdgesOnly)
    } else if word_is(&w, "subject") || word_is(&w, "subject_outline") || word_is(
        &w,
        "subjectoutline",
    ) {
        Some(LineMode::SubjectOutline)
    } else {
        None
    }
}

/// A recolouring by name. Those with parameters have none.
pub open spec fn fill_style_word(w: Seq<char>) -> Option<FillStyle> {
    if w == "none"@ {
        Some(FillStyle::Plain)
    } else if w == "desaturate"@ {
        Some(FillStyle::Desaturate)
    } else if w == "invert"@ {
        Some(FillStyle::Invert)
    } else if w == "sepia"@ {
        Some(FillStyle::Sepia)
    } else {
        None
    }
}

/// Reads a recolouring.
pub fn read_fill_style(value: &str) -> (r: Option<FillStyle>)
    ensures
        r == fill_style_word(plain_word(value@)),
{
    let w = to_plain_word(value);
    if word_is(&w, "none") {
        Some(FillStyle::Plain)
    } else if word_is(&w, "desaturate") {
        Some(FillStyle::Desaturate)
    } else if word_is(&w, "invert") {
        Some(FillStyle::Invert)
    } else if word_is(&w, "sepia") {
        Some(FillStyle::Sepia)
    } else {
        None
    }
}

/// A backdrop by name. The one with a parameter has none.
pub open spec fn bg_effect_word(w: Seq<char>) -> Option<BgEffect> {
    if w == "none"@ {
        Some(BgEffect::Plain)
    } else if w == "inverted"@ || w == "inverted_source"@ {
        Some(BgEffect::InvertedSource)
    } else if w == "desaturated"@ || w == "desaturated_source"@ {
        Some(BgEffect::DesaturatedSource)
    } else {
        None
    }
}

/// Reads a backdrop.
pub fn read_bg_effect(value: &str) -> (r: Option<BgEffect>)
    ensures
        r == bg_effect_word(plain_word(value@)),
{
    let w = to_plain_word(value);
    if word_is(&w, "none") {
        Some(BgEffect::Plain)
    } else if word_is(&w, "inverted") || word_is(&w, "inverted_source") {
        Some(BgEffect::InvertedSource)
    } else if word_is(&w, "desaturated") || word_is(&w, "desaturated_source") {
        Some(BgEffect::DesaturatedSource)
    } else {
        None
    }
}

/// Values of the variables: numbers as they were read, the rest as text.
pub struct EnvOverrides {
    pub gamma: Option<Scalar>,
    pub threshold: Option<Scalar>,
    pub edge_shift: Option<Scalar>,
    pub refine_edges: Option<String>,
    pub feather: Option<Scalar>,
    pub bg_color: Option<String>,
    pub line_mode: Option<String>,
    pub line_strength: Option<Scalar>,
    pub fill_style: Option<String>,
    pub bg_effect: Option<String>,
}

/// A value, or the one in force where there is none.
pub open spec fn or_kept<T>(o: Option<T>, kept: T) -> T {
    match o {
        Some(v) => v,
        None => kept,
    }
}

/// A value, or the one in force where there is none.
fn or_keep<T>(o: Option<T>, kept: T) -> (r: T)
    ensures
        r == or_kept(o, kept),
{
    match o {
        Some(v) => v,
        None => kept,
    }
}

impl EnvOverrides {
    /// Whether edges are refined, where the variable says so.
    pub open spec fn refine_value(&self) -> Option<bool> {
        match self.refine_edges {
            Some(t) => bool_word(plain_word(t@)),
            None => None,
        }
    }

    /// Background colour, where the variable gives one.
    pub open spec fn bg_value(&self) -> Option<Rgba> {
        match self.bg_color {
            Some(t) => rgba_digits(no_number_signs(trimmed(t@))),
            None => None,
        }
    }

    /// Line mode, where the variable gives one.
    pub open spec fn line_mode_value(&self) -> Option<LineMode> {
        match self.line_mode {
            Some(t) => line_mode_word(plain_word(t@)),
            None => None,
        }
    }

    /// Recolouring, where the variable gives one.
    pub open spec fn fill_value(&self) -> Option<FillStyle> {
        match self.fill_style {
            Some(t) => fill_style_word(plain_word(t@)),
            None => None,
        }
    }

    /// Backdrop, where the variable gives one.
    pub open spec fn effect_value(&self) -> Option<BgEffect> {
        match self.bg_effect {
            Some(t) => bg_effect_word(plain_word(t@)),
            None => None,
        }
    }

    /// Settings with the overrides in effect.
    pub open spec fn applied(&self, s: ItemSettings) -> ItemSettings {
        ItemSettings {
            gamma: or_kept(self.gamma, s.gamma),
            threshold: match self.threshold {
                Some(v) => Some(v),
                None => s.threshold,
            },
            edge_shift: or_kept(self.edge_shift, s.edge_shift),
            refine_edges: or_kept(self.refine_value(), s.refine_edges),
            feather: or_kept(self.feather, s.feather),
            bg: match self.bg_value() {
                Some(v) => Some(v),
                None => s.bg,
            },
            line_mode: or_kept(self.line_mode_value(), s.line_mode),
            line_strength: or_kept(self.line_strength, s.line_strength),
            fill_style: or_kept(self.fill_value(), s.fill_style),
            bg_effect: or_kept(self.effect_value(), s.bg_effect),
            ..s
        }
    }

    fn read_refine(&self) -> (r: Option<bool>)
        ensures
            r == self.refine_value(),
    {
        match &self.refine_edges {
            Some(t) => read_bool(t.as_str()),
            None => None,
        }
    }

    fn read_bg(&self) -> (r: Option<Rgba>)
        ensures
            r == self.bg_value(),
    {
        match &self.bg_color {
            Some(t) => read_hex_rgba(t.as_str()),
            None => None,
        }
    }

    fn read_mode(&self) -> (r: Option<LineMode>)
        ensures
            r == self.line_mode_value(),
    {
        match &self.line_mode {
            Some(t) => read_line_mode(t.as_str()),
            None => None,
        }
    }

    fn read_fill(&self) -> (r: Option<FillStyle>)
        ensures
            r == self.fill_value(),
    {
        match &self.fill_style {
            Some(t) => read_fill_style(t.as_str()),
            None => None,
        }
    }

    fn read_effect(&self) -> (r: Option<BgEffect>)
        ensures
            r == self.effect_value(),
    {
        match &self.bg_effect {
            Some(t) => read_bg_effect(t.as_str()),
            None => None,
        }
    }
}

/// Variables that are not set change nothing.
pub proof fn unset_variables_change_nothing(env: EnvOverrides, item: ItemSettings)
    requires
        env.gamma is None,
        env.threshold is None,
        env.edge_shift is None,
        env.refine_edges is None,
        env.feather is None,
        env.bg_color is None,
        env.line_mode is None,
        env.line_strength is None,
        env.fill_style is None,
        env.bg_effect is None,
    ensures
        env.applied(item) == item,
{
}

/// The environment touches nothing but the knobs it has variables for.
pub proof fn variables_touch_their_knobs_only(env: EnvOverrides, item: ItemSettings)
    ensures
        ({
            let r = env.applied(item);
            env.applied(item) == (ItemSettings {
                gamma: r.gamma,
                threshold: r.threshold,
                edge_shift: r.edge_shift,
                refine_edges: r.refine_edges,
                feather: r.feather,
                bg: r.bg,
                line_mode: r.line_mode,
                line_strength: r.line_strength,
                fill_style: r.fill_style,
                bg_effect: r.bg_effect,
                ..item
            })
        }),
{
}

/// Puts the overrides into effect.
pub fn apply_to_item_settings(item: &mut ItemSettings, env: &EnvOverrides)
    ensures
        *final(item) == env.applied(*old(item)),
{
    let mut s = *item;
    s.gamma = or_keep(env.gamma, s.gamma);
    if env.threshold.is_some() {
        s.threshold = env.threshold;
    }
    s.edge_shift = or_keep(env.edge_shift, s.edge_shift);
    s.refine_edges = or_keep(env.read_refine(), s.refine_edges);
    s.feather = or_keep(env.feather, s.feather);
    let bg = env.read_bg();
    if bg.is_some() {
        s.bg = bg;
    }
    s.line_mode = or_keep(env.read_mode(), s.line_mode);
    s.line_strength = or_keep(env.line_strength, s.line_strength);
    s.fill_style = or_keep(env.read_fill(), s.fill_style);
    s.bg_effect = or_keep(env.read_effect(), s.bg_effect);
    *item = s;
}

/// Truth values are written in four ways each; every other word is none.
pub proof fn truth_values_have_their_words(w: Seq<char>)
    ensures
        bool_word(w) == Some(true) <==> {
            ||| w == seq!['1']
            ||| w == seq!['t', 'r', 'u', 'e']
            ||| w == seq!['y', 'e', 's']
            ||| w == seq!['o', 'n']
        },
        bool_word(w) == Some(false) <==> {
            ||| w == seq!['0']
            ||| w == seq!['f', 'a', 'l', 's', 'e']
            ||| w == seq!['n', 'o']
            ||| w == seq!['o', 'f', 'f']
        },
{
    reveal_strlit("1");
    assert("1"@ =~= seq!['1']);
    reveal_strlit("true");
    assert("true"@ =~= seq!['t', 'r', 'u', 'e']);
    reveal_strlit("yes");
    assert("yes"@ =~= seq!['y', 'e', 's']);
    reveal_strlit("on");
    assert("on"@ =~= seq!['o', 'n']);
    reveal_strlit("0");
    assert("0"@ =~= seq!['0']);
    reveal_strlit("false");
    assert("false"@ =~= seq!['f', 'a', 'l', 's', 'e']);
    reveal_strlit("no");
    assert("no"@ =~= seq!['n', 'o']);
    reveal_strlit("off");
    assert("off"@ =~= seq!['o', 'f', 'f']);
    assert(seq!['0'][0] != seq!['1'][0]);
    assert(seq!['n', 'o'][0] != seq!['o', 'n'][0]);
}

/// Line modes go by their names; every other word is none.
pub proof fn line_modes_go_by_name(w: Seq<char>)
    ensures
        line_mode_word(w) == Some(LineMode::Off) <==> {
            ||| w == seq!['o', 'f', 'f']
        },
        line_mode_word(w) == Some(LineMode::EdgesOnly) <==> {
            ||| w == seq!['e', 'd', 'g', 'e', 's']
            ||| w == seq!['e', 'd', 'g', 'e', 's', '_', 'o', 'n', 'l', 'y']
            ||| w == seq!['e', 'd', 'g', 'e', 's', 'o', 'n', 'l', 'y']
        },
        line_mode_word(w) == Some(LineMode::SubjectOutline) <==> {
            ||| w == seq!['s', 'u', 'b', 'j', 'e', 'c', 't']
            ||| w == seq!['s', 'u', 'b', 'j', 'e', 'c', 't', '_', 'o', 'u', 't', 'l', 'i', 'n', 'e']
            ||| w == seq!['s', 'u', 'b', 'j', 'e', 'c', 't', 'o', 'u', 't', 'l', 'i', 'n', 'e']
        },
{
    reveal_strlit("off");
    assert("off"@ =~= seq!['o', 'f', 'f']);
    reveal_strlit("edges");
    assert("edges"@ =~= seq!['e', 'd', 'g', 'e', 's']);
    reveal_strlit("edges_only");
    assert("edges_only"@ =~= seq!['e', 'd', 'g', 'e', 's', '_', 'o', 'n', 'l', 'y']);
    reveal_strlit("edgesonly");
    assert("edgesonly"@ =~= seq!['e', 'd', 'g', 'e', 's', 'o', 'n', 'l', 'y']);
    reveal_strlit("subject");
    assert("subject"@ =~= seq!['s', 'u', 'b', 'j', 'e', 'c', 't']);
    reveal_strlit("subject_outline");
    assert("subject_outline"@ =~= seq!['s', 'u', 'b', 'j', 'e', 'c', 't', '_', 'o', 'u', 't', 'l', 'i', 'n', 'e']);
    reveal_strlit("subjectoutline");
    assert("subjectoutline"@ =~= seq!['s', 'u', 'b', 'j', 'e', 'c', 't', 'o', 'u', 't', 'l', 'i', 'n', 'e']);
}

/// Recolourings without parameters go by their names; every other word is none.
pub proof fn recolourings_go_by_name(w: Seq<char>)
    ensures
        fill_style_word(w) == Some(FillStyle::Plain) <==> {
            ||| w == seq!['n', 'o', 'n', 'e']
        },
        fill_style_word(w) == Some(FillStyle::Desaturate) <==> {
            ||| w == seq!['d', 'e', 's', 'a', 't', 'u', 'r', 'a', 't', 'e']
        },
        fill_style_word(w) == Some(FillStyle::Invert) <==> {
            ||| w == seq!['i', 'n', 'v', 'e', 'r', 't']
        },
        fill_style_word(w) == Some(FillStyle::Sepia) <==> {
            ||| w == seq!['s', 'e', 'p', 'i', 'a']
        },
{
    reveal_strlit("none");
    assert("none"@ =~= seq!['n', 'o', 'n', 'e']);
    reveal_strlit("desaturate");
    assert("desaturate"@ =~= seq!['d', 'e', 's', 'a', 't', 'u', 'r', 'a', 't', 'e']);
    reveal_strlit("invert");
    assert("invert"@ =~= seq!['i', 'n', 'v', 'e', 'r', 't']);
    reveal_strlit("sepia");
    assert("sepia"@ =~= seq!['s', 'e', 'p', 'i', 'a']);
}

/// Backdrops without parameters go by their names; every other word is none.
pub proof fn backdrops_go_by_name(w: Seq<char>)
    ensures
        bg_effect_word(w) == Some(BgEffect::Plain) <==> {
            ||| w == seq!['n', 'o', 'n', 'e']
        },
        bg_effect_word(w) == Some(BgEffect::InvertedSource) <==> {
            ||| w == seq!['i', 'n', 'v', 'e', 'r', 't', 'e', 'd']
            ||| w == seq!['i', 'n', 'v', 'e', 'r', 't', 'e', 'd', '_', 's', 'o', 'u', 'r', 'c', 'e']
        },
        bg_effect_word(w) == Some(BgEffect::DesaturatedSource) <==> {
            ||| w == seq!['d', 'e', 's', 'a', 't', 'u', 'r', 'a', 't', 'e', 'd']
            ||| w == seq!['d', 'e', 's', 'a', 't', 'u', 'r', 'a', 't', 'e', 'd', '_', 's', 'o', 'u', 'r', 'c', 'e']
        },
{
    reveal_strlit("none");
    assert("none"@ =~= seq!['n', 'o', 'n', 'e']);
    reveal_strlit("inverted");
    assert("inverted"@ =~= seq!['i', 'n', 'v', 'e', 'r', 't', 'e', 'd']);
    reveal_strlit("inverted_source");
    assert("inverted_source"@ =~= seq!['i', 'n', 'v', 'e', 'r', 't', 'e', 'd', '_', 's', 'o', 'u', 'r', 'c', 'e']);
    reveal_strlit("desaturated");
    assert("desaturated"@ =~= seq!['d', 'e', 's', 'a', 't', 'u', 'r', 'a', 't', 'e', 'd']);
    reveal_strlit("desaturated_source");
    assert("desaturated_source"@ =~= seq!['d', 'e', 's', 'a', 't', 'u', 'r', 'a', 't', 'e', 'd', '_', 's', 'o', 'u', 'r', 'c', 'e']);
}

/// A variable sets its own knob, to its own value; a knob whose variable is not set, or
/// cannot be read, stays.
pub proof fn variables_set_their_own_knob(env: EnvOverrides, s: ItemSettings)
    ensures
        ({
            let r = env.applied(s);
            &&& env.gamma matches Some(v) ==> r.gamma == v
            &&& env.gamma is None ==> r.gamma == s.gamma
            &&& env.threshold matches Some(v) ==> r.threshold == Some(v)
            &&& env.threshold is None ==> r.threshold == s.threshold
            &&& env.edge_shift matches Some(v) ==> r.edge_shift == v
            &&& env.edge_shift is None ==> r.edge_shift == s.edge_shift
            &&& env.feather matches Some(v) ==> r.feather == v
            &&& env.feather is None ==> r.feather == s.feather
            &&& env.line_strength matches Some(v) ==> r.line_strength == v
            &&& env.line_strength is None ==> r.line_strength == s.line_strength
            &&& env.refine_edges matches Some(t) ==> (bool_word(plain_word(t@)) matches Some(v)
                ==> r.refine_edges == v)
            &&& env.refine_edges is None ==> r.refine_edges == s.refine_edges
            &&& env.line_mode matches Some(t) ==> (line_mode_word(plain_word(t@)) matches Some(v)
                ==> r.line_mode == v)
            &&& env.line_mode is None ==> r.line_mode == s.line_mode
            &&& env.fill_style matches Some(t) ==> (fill_style_word(plain_word(t@)) matches Some(v)
                ==> r.fill_style == v)
            &&& env.fill_style is None ==> r.fill_style == s.fill_style
            &&& env.bg_effect matches Some(t) ==> (bg_effect_word(plain_word(t@)) matches Some(v)
                ==> r.bg_effect == v)
            &&& env.bg_effect is None ==> r.bg_effect == s.bg_effect
            &&& env.bg_color is None ==> r.bg == s.bg
            &&& env.bg_color matches Some(t) ==> (rgba_digits(no_number_signs(trimmed(t@)))
                matches Some(c) ==> r.bg == Some(c))
            &&& r.guided_epsilon == s.guided_epsilon && r.guided_radius == s.guided_radius
        }),
{
}

/// A colour is two digits each for red, green and blue, in this order, and two more for
/// alpha; without those it is opaque.
pub proof fn colours_name_their_channels(d: Seq<char>)
    ensures
        rgba_digits(d) is Some ==> d.len() == 6 || d.len() == 8,
        rgba_digits(d) matches Some(c) ==> {
            &&& c.r == 16 * hex_digit(d[0])->0 + hex_digit(d[1])->0
            &&& c.g == 16 * hex_digit(d[2])->0 + hex_digit(d[3])->0
            &&& c.b == 16 * hex_digit(d[4])->0 + hex_digit(d[5])->0
            &&& d.len() == 6 ==> c.a == 255
            &&& d.len() == 8 ==> c.a == 16 * hex_digit(d[6])->0 + hex_digit(d[7])->0
        },
        (d.len() == 6 || d.len() == 8) && (forall|i: int|
            0 <= i < d.len() ==> hex_digit(#[trigger] d[i]) is Some) ==> rgba_digits(d) is Some,
{
    if d.len() >= 6 {
        hex_pairs_are_two_digits(d[0], d[1]);
        hex_pairs_are_two_digits(d[2], d[3]);
        hex_pairs_are_two_digits(d[4], d[5]);
    }
    if d.len() == 8 {
        hex_pairs_are_two_digits(d[6], d[7]);
    }
}

} // verus!
