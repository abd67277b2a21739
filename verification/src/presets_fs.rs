//! Preset files: their names, the two formats, merging an entry into a file and
//! the presets that come with the application.
use vstd::prelude::*;
use crate::brush_state::default_brush;
use crate::item_settings::{default_item_settings, ItemSettings};
use crate::paths::{
    extension, extension_of, extensions_are_found, file_name, file_stem, join_path, joined,
    joined_names_are_found, stem_of,
};
use crate::pipeline::{ComposeMode, FillStyle, LineMode, LineStyle, ModelId, Rgb, Rgba, Scalar};
use crate::presets::{
    default_preset, key_of, model_id_key, Entry, ModelPreset, Preset, PresetFile,
    PRESET_FORMAT_VERSION,
};
use crate::settings::PRUNR_PRESET;
use crate::tables::NameTable;
use crate::text::{
    chars_of, control, is_control, join2, lowered, same_chars, same_text, text_of, to_lowered, trim,
    trimmed,
};

verus! {

/// Whether two texts are equal but for ASCII capitals.
pub fn same_but_for_case(a: &str, b: &str) -> (r: bool)
    ensures
        r == (lowered(a@) == lowered(b@)),
{
    let x = chars_of(a);
    let y = chars_of(b);
    same_chars(&to_lowered(&x), &to_lowered(&y))
}

/// Whether a name is that of the factory preset.
pub open spec fn reserved(name: Seq<char>) -> bool {
    lowered(name) == lowered(PRUNR_PRESET@)
}

/// Whether a character may stand in a file name.
pub open spec fn allowed(c: char) -> bool {
    !control(c) && c != '/' && c != '\\'
}

/// A text without the characters that may not stand in a file name.
pub open spec fn allowed_only(s: Seq<char>) -> Seq<char>
    decreases s.len(),
{
    if s.len() == 0 {
        s
    } else if allowed(s.last()) {
        allowed_only(s.drop_last()).push(s.last())
    } else {
        allowed_only(s.drop_last())
    }
}

/// A text without leading dots.
pub open spec fn no_leading_dots(s: Seq<char>) -> Seq<char>
    decreases s.len(),
{
    if s.len() > 0 && s[0] == '.' {
        no_leading_dots(s.skip(1))
    } else {
        s
    }
}

/// A text with every pair of dots, from the left, made an underscore.
pub open spec fn no_dot_pairs(s: Seq<char>) -> Seq<char>
    decreases s.len(),
{
    if s.len() == 0 {
        s
    } else if s.len() >= 2 && s[0] == '.' && s[1] == '.' {
        seq!['_'] + no_dot_pairs(s.skip(2))
    } else {
        seq![s[0]] + no_dot_pairs(s.skip(1))
    }
}

/// The stem under which a preset is stored.
pub open spec fn safe_stem(name: Seq<char>) -> Seq<char> {
    let s = no_dot_pairs(no_leading_dots(allowed_only(trimmed(name))));
    if s.len() == 0 {
        "preset"@
    } else {
        s
    }
}

proof fn allowed_only_allows(s: Seq<char>)
    ensures
        forall|i: int| 0 <= i < allowed_only(s).len() ==> allowed(#[trigger] allowed_only(s)[i]),
    decreases s.len(),
{
    if s.len() > 0 {
        let q = allowed_only(s.drop_last());
        allowed_only_allows(s.drop_last());
        assert forall|i: int| 0 <= i < allowed_only(s).len() implies allowed(
            #[trigger] allowed_only(s)[i],
        ) by {
            if i < q.len() {
                assert(allowed_only(s)[i] == q[i]);
            }
        }
    }
}

proof fn no_leading_dots_props(s: Seq<char>)
    ensures
        no_leading_dots(s).len() > 0 ==> no_leading_dots(s)[0] != '.',
        forall|i: int|
            0 <= i < no_leading_dots(s).len() ==> s.contains(#[trigger] no_leading_dots(s)[i]),
    decreases s.len(),
{
    if s.len() > 0 && s[0] == '.' {
        let t = s.skip(1);
        no_leading_dots_props(t);
        assert forall|i: int| 0 <= i < no_leading_dots(s).len() implies s.contains(
            #[trigger] no_leading_dots(s)[i],
        ) by {
            let c = no_leading_dots(s)[i];
            assert(t.contains(c));
            assert(s[t.index_of(c) + 1] == c);
        }
    }
}

proof fn no_dot_pairs_props(s: Seq<char>)
    ensures
        ({
            let r = no_dot_pairs(s);
            &&& s.len() > 0 <==> r.len() > 0
            &&& s.len() > 0 ==> (r[0] == s[0] && !(s.len() >= 2 && s[0] == '.' && s[1] == '.')
                || r[0] == '_')
            &&& forall|i: int| 0 <= i < r.len() ==> #[trigger] r[i] == '_' || s.contains(r[i])
            &&& forall|i: int| 0 <= i < r.len() - 1 ==> !(#[trigger] r[i] == '.' && r[i + 1] == '.')
        }),
    decreases s.len(),
{
    let r = no_dot_pairs(s);
    if s.len() > 0 {
        let pair = s.len() >= 2 && s[0] == '.' && s[1] == '.';
        let t = if pair {
            s.skip(2)
        } else {
            s.skip(1)
        };
        let d = if pair {
            2int
        } else {
            1int
        };
        no_dot_pairs_props(t);
        let q = no_dot_pairs(t);
        assert forall|i: int| 0 <= i < r.len() implies #[trigger] r[i] == '_' || s.contains(
            r[i],
        ) by {
            if i > 0 {
                assert(r[i] == q[i - 1]);
                if t.contains(r[i]) {
                    assert(s[t.index_of(r[i]) + d] == r[i]);
                }
            } else if !pair {
                assert(s[0] == r[0]);
            }
        }
        assert forall|i: int| 0 <= i < r.len() - 1 implies !(#[trigger] r[i] == '.' && r[i + 1]
            == '.') by {
            if i > 0 {
                assert(r[i] == q[i - 1] && r[i + 1] == q[i]);
            } else if !pair && s[0] == '.' {
                assert(r[1] == q[0]);
                assert(t.len() > 0);
                assert(t[0] == s[1]);
            }
        }
    }
}

/// A stored preset always has a file name of its own that stays in its
/// directory: not empty, without separators and control characters, not hidden,
/// and nowhere two dots in a row.
pub proof fn safe_stem_is_safe(name: Seq<char>)
    ensures
        safe_stem(name).len() > 0,
        safe_stem(name)[0] != '.',
        forall|i: int| 0 <= i < safe_stem(name).len() ==> allowed(#[trigger] safe_stem(name)[i]),
        forall|i: int|
            0 <= i < safe_stem(name).len() - 1 ==> !(#[trigger] safe_stem(name)[i] == '.'
                && safe_stem(name)[i + 1] == '.'),
{
    reveal_strlit("preset");
    let a = allowed_only(trimmed(name));
    let b = no_leading_dots(a);
    let c = no_dot_pairs(b);
    allowed_only_allows(trimmed(name));
    no_leading_dots_props(a);
    no_dot_pairs_props(b);
    if c.len() > 0 {
        assert forall|i: int| 0 <= i < c.len() implies allowed(#[trigger] c[i]) by {
            if c[i] != '_' {
                assert(b.contains(c[i]));
                let j = b.index_of(c[i]);
                assert(a.contains(b[j]));
                let k = a.index_of(b[j]);
                assert(allowed(a[k]));
            }
        }
    }
}

/// Makes a preset name fit for a file name: path separators, control characters
/// and leading dots are dropped, and two dots in a row become an underscore.
pub fn sanitize_filename(name: &str) -> (r: String)
    ensures
        r@ == safe_stem(name@),
{
    let t = trim(name);
    let mut kept: Vec<char> = Vec::new();
    let mut i: usize = 0;
    while i < t.len()
        invariant
            i <= t@.len(),
            kept@ == allowed_only(t@.take(i as int)),
        decreases t@.len() - i,
    {
        let c: char = t[i];
        proof {
            assert(t@.take(i as int + 1).drop_last() =~= t@.take(i as int));
        }
        if !is_control(c) && c != '/' && c != '\\' {
            kept.push(c);
        }
        i += 1;
    }
    assert(t@.take(t@.len() as int) =~= t@);
    let mut start: usize = 0;
    assert(kept@.skip(0) =~= kept@);
    while start < kept.len() && kept[start] == '.'
        invariant
            start <= kept@.len(),
            no_leading_dots(kept@) == no_leading_dots(kept@.skip(start as int)),
        decreases kept@.len() - start,
    {
        assert(kept@.skip(start as int).skip(1) =~= kept@.skip(start as int + 1));
        start += 1;
    }
    let ghost b = kept@.skip(start as int);
    let mut out: Vec<char> = Vec::new();
    let mut k: usize = start;
    while k < kept.len()
        invariant
            start <= k <= kept@.len(),
            b == kept@.skip(start as int),
            out@ + no_dot_pairs(kept@.skip(k as int)) == no_dot_pairs(b),
        decreases kept@.len() - k,
    {
        let ghost rest = kept@.skip(k as int);
        let ghost before = out@;
        if k + 1 < kept.len() && kept[k] == '.' && kept[k + 1] == '.' {
            out.push('_');
            proof {
                assert(rest.skip(2) =~= kept@.skip(k as int + 2));
                assert(before + (seq!['_'] + no_dot_pairs(rest.skip(2))) =~= before.push('_')
                    + no_dot_pairs(rest.skip(2)));
            }
            k += 2;
        } else {
            let c: char = kept[k];
            out.push(c);
            proof {
                assert(rest.skip(1) =~= kept@.skip(k as int + 1));
                assert(before + (seq![c] + no_dot_pairs(rest.skip(1))) =~= before.push(c)
                    + no_dot_pairs(rest.skip(1)));
            }
            k += 1;
        }
    }
    proof {
        assert(kept@.skip(k as int) =~= Seq::<char>::empty());
        assert(out@ + Seq::<char>::empty() =~= out@);
    }
    if out.len() == 0 {
        "preset".to_owned()
    } else {
        text_of(&out)
    }
}

/// Where a preset is stored in the presets directory; `None` for the factory
/// preset.
pub fn preset_path(dir: &str, name: &str) -> (r: Option<String>)
    ensures
        match r {
            Some(p) => !reserved(name@) && p@ == joined(dir@, safe_stem(name@) + ".json"@),
            None => reserved(name@),
        },
{
    if same_but_for_case(name, PRUNR_PRESET) {
        None
    } else {
        let stem = sanitize_filename(name);
        let file = join2(stem.as_str(), ".json");
        Some(join_path(dir, file.as_str()))
    }
}

/// Why a preset cannot be stored.
#[derive(Clone, Copy, Debug, PartialEq, Eq, Structural)]
pub enum PresetError {
    /// The name is that of the factory preset.
    ReservedName,
    /// The system has no directory for settings.
    NoConfigDir,
}

impl PresetError {
    /// Text for the user.
    pub fn message(&self) -> (r: &'static str)
        ensures
            r@ == match *self {
                PresetError::ReservedName => "\"Prunr\" is a reserved preset name"@,
                PresetError::NoConfigDir => "config dir unavailable"@,
            },
    {
        match self {
            PresetError::ReservedName => "\"Prunr\" is a reserved preset name",
            PresetError::NoConfigDir => "config dir unavailable",
        }
    }
}

/// Where a preset is written. The factory preset is never written.
pub fn save_target(dir: Option<&str>, name: &str) -> (r: Result<String, PresetError>)
    ensures
        match r {
            Ok(p) => !reserved(name@) && (dir matches Some(d) && p@ == joined(
                d@,
                safe_stem(name@) + ".json"@,
            )),
            Err(PresetError::ReservedName) => reserved(name@),
            Err(PresetError::NoConfigDir) => !reserved(name@) && dir is None,
        },
{
    if same_but_for_case(name, PRUNR_PRESET) {
        return Err(PresetError::ReservedName);
    }
    match dir {
        None => Err(PresetError::NoConfigDir),
        Some(d) => match preset_path(d, name) {
            Some(p) => Ok(p),
            None => Err(PresetError::ReservedName),
        },
    }
}

/// Name of the preset that a file holds, from its path. Other files than
/// `.json` hold none, and neither does one that has the factory preset's name.
pub open spec fn stored_name(path: Seq<char>) -> Option<Seq<char>> {
    match file_name(path) {
        Some(f) => if extension_of(f) == Some("json"@) && !reserved(stem_of(f)) {
            Some(stem_of(f))
        } else {
            None
        },
        None => None,
    }
}

/// Name of the preset that a file holds, from its path.
pub fn preset_name_of(path: &str) -> (r: Option<String>)
    ensures
        match stored_name(path@) {
            Some(n) => r matches Some(s) && s@ == n,
            None => r is None,
        },
{
    let ext = match extension(path) {
        Some(e) => e,
        None => {
            return None;
        },
    };
    if !same_text(ext.as_str(), "json") {
        return None;
    }
    match file_stem(path) {
        Some(stem) => {
            if same_but_for_case(stem.as_str(), PRUNR_PRESET) {
                None
            } else {
                Some(stem)
            }
        },
        None => None,
    }
}

/// What the outside of a JSON document shows.
#[derive(Clone, Copy, Debug, PartialEq, Eq, Structural)]
pub struct JsonHead {
    /// Whether it is an object.
    pub is_object: bool,
    /// The member asked for, where it is a whole number.
    pub number: Option<u64>,
}

/// What `serde_json` reads of bytes as a JSON document: `None` where they are
/// not one, else whether it is an object and its member under a name.
pub uninterp spec fn json_head(bytes: Seq<u8>, member: Seq<char>) -> Option<JsonHead>;

/// Parses bytes with `serde_json::from_slice` and looks at the document through
/// `Value::is_object`, `Value::get` and `Value::as_u64`. What makes bytes a JSON
/// document is left to that crate; only an object has members.
#[verifier::external_body]
fn read_json_head(bytes: &[u8], member: &str) -> (r: Option<JsonHead>)
    ensures
        r == json_head(bytes@, member@),
        r matches Some(h) ==> h.number is Some ==> h.is_object,
{
    let value: serde_json::Value = serde_json::from_slice(bytes).ok()?;
    Some(
        JsonHead {
            is_object: value.is_object(),
            number: value.get(member).and_then(|v| v.as_u64()),
        },
    )
}

/// Format of a preset file.
#[derive(Clone, Copy, Debug, PartialEq, Eq, Structural)]
pub enum PresetFormat {
    /// The settings of every model, in the current version.
    ByModel,
    /// The settings of one picture, without version.
    PictureOnly,
    /// JSON, but no preset.
    Unrecognised,
    /// Not JSON.
    Malformed,
}

/// Format of a preset file, from what the outside of its document shows: a file
/// that does not carry the current version is taken for the older kind.
pub fn format_of_head(head: Option<JsonHead>) -> (r: PresetFormat)
    ensures
        r == match head {
            None => PresetFormat::Malformed,
            Some(h) => if h.number == Some(PRESET_FORMAT_VERSION as u64) {
                PresetFormat::ByModel
            } else if h.is_object {
                PresetFormat::PictureOnly
            } else {
                PresetFormat::Unrecognised
            },
        },
{
    match head {
        None => PresetFormat::Malformed,
        Some(h) => {
            let current = match h.number {
                Some(n) => n == PRESET_FORMAT_VERSION as u64,
                None => false,
            };
            if current {
                PresetFormat::ByModel
            } else if h.is_object {
                PresetFormat::PictureOnly
            } else {
                PresetFormat::Unrecognised
            }
        },
    }
}

/// Format of a preset file, from its bytes.
pub fn preset_format(bytes: &[u8]) -> (r: PresetFormat)
    ensures
        r == match json_head(bytes@, "format_version"@) {
            None => PresetFormat::Malformed,
            Some(h) => if h.number == Some(PRESET_FORMAT_VERSION as u64) {
                PresetFormat::ByModel
            } else if h.is_object {
                PresetFormat::PictureOnly
            } else {
                PresetFormat::Unrecognised
            },
        },
{
    format_of_head(read_json_head(bytes, "format_version"))
}

/// Model under which settings without a model are kept.
pub open spec fn default_model() -> ModelId {
    ModelId::BiRefNetLite
}

/// The preset that the settings of one picture stand for: they are kept for the
/// default model.
pub open spec fn picture_preset(settings: ItemSettings) -> Preset {
    Preset {
        format_version: PRESET_FORMAT_VERSION,
        models: Map::empty().insert(
            key_of(default_model()),
            Entry { item_settings: settings, brush: default_brush(), sd: None },
        ),
    }
}

/// Wraps the settings of one picture into a preset for the default model.
pub fn wrap_picture_settings(settings: ItemSettings) -> (r: PresetFile)
    ensures
        r@.format_version == PRESET_FORMAT_VERSION,
        r@.models == picture_preset(settings).models,
{
    let mut models: NameTable<ModelPreset> = NameTable::new();
    let entry = ModelPreset {
        item_settings: settings,
        brush: crate::brush_state::BrushSettings::default(),
        sd: None,
    };
    models.insert(model_id_key(ModelId::BiRefNetLite), entry);
    let r = PresetFile { format_version: PRESET_FORMAT_VERSION, models };
    assert(r@.models =~= picture_preset(settings).models);
    r
}

/// The preset that a file holds, from its format and what could be read of its
/// document in that format. `None` where the file is no preset.
pub fn parse_preset(
    format: PresetFormat,
    by_model: Option<PresetFile>,
    picture: Option<ItemSettings>,
) -> (r: Option<PresetFile>)
    ensures
        match format {
            PresetFormat::ByModel => r == by_model,
            PresetFormat::PictureOnly => match picture {
                Some(s) => r matches Some(f) && f@.models == picture_preset(s).models
                    && f@.format_version == PRESET_FORMAT_VERSION,
                None => r is None,
            },
            PresetFormat::Unrecognised => r is None,
            PresetFormat::Malformed => r is None,
        },
{
    match format {
        PresetFormat::ByModel => by_model,
        PresetFormat::PictureOnly => match picture {
            Some(s) => Some(wrap_picture_settings(s)),
            None => None,
        },
        PresetFormat::Unrecognised => None,
        PresetFormat::Malformed => None,
    }
}

/// The file that an entry is merged into: what was stored, or a preset without
/// entries where nothing could be read.
pub fn merge_base(existing: Option<PresetFile>) -> (r: PresetFile)
    ensures
        match existing {
            Some(f) => r == f,
            None => r@ == default_preset(),
        },
{
    match existing {
        Some(f) => f,
        None => PresetFile::default(),
    }
}

/// A preset with the entry of one model replaced.
pub open spec fn merged(p: Preset, model: ModelId, e: Entry) -> Preset {
    Preset { format_version: PRESET_FORMAT_VERSION, models: p.models.insert(key_of(model), e) }
}

/// Puts the entry of one model into a preset. The entries of other models stay.
pub fn merge_into(file: &mut PresetFile, model_id: ModelId, mp: ModelPreset)
    ensures
        final(file)@.format_version == PRESET_FORMAT_VERSION,
        final(file)@.models == merged(old(file)@, model_id, mp@).models,
{
    file.format_version = PRESET_FORMAT_VERSION;
    file.models.insert(model_id_key(model_id), mp);
    assert(file@.models =~= merged(old(file)@, model_id, mp@).models);
}

/// Merging an entry touches only its own model: every other model keeps what it
/// had, and names that stand for no known model stay too.
pub proof fn merge_keeps_other_models(p: Preset, model: ModelId, e: Entry, name: Seq<char>)
    ensures
        name != key_of(model) ==> (merged(p, model, e).models.contains_key(name)
            == p.models.contains_key(name) && (p.models.contains_key(name) ==> merged(
            p,
            model,
            e,
        ).models[name] == p.models[name])),
        merged(p, model, e).entry(model) == Some(e),
{
}

/// Bit pattern of 1.1.
pub const GAMMA_SOFT_BITS: u32 = 0x3F8C_CCCD;

/// Bit pattern of 1.3.
pub const GAMMA_FIRM_BITS: u32 = 0x3FA6_6666;

/// Bit pattern of 1.4.
pub const GAMMA_STRONG_BITS: u32 = 0x3FB3_3333;

/// Bit pattern of 0.55.
pub const STRENGTH_55_BITS: u32 = 0x3F0C_CCCD;

/// Bit pattern of 0.6.
pub const STRENGTH_60_BITS: u32 = 0x3F19_999A;

/// Bit pattern of 0.65.
pub const STRENGTH_65_BITS: u32 = 0x3F26_6666;

/// Bit pattern of 0.7.
pub const STRENGTH_70_BITS: u32 = 0x3F33_3333;

/// Bit pattern of 0.8.
pub const STRENGTH_80_BITS: u32 = 0x3F4C_CCCD;

/// Settings of an outlined look, before its colours.
pub open spec fn outlined(compose: ComposeMode, strength_bits: u32, thickness: u32) -> ItemSettings {
    ItemSettings {
        line_mode: LineMode::SubjectOutline,
        compose_mode: compose,
        line_strength: Scalar { bits: strength_bits },
        edge_thickness: thickness,
        ..default_item_settings()
    }
}

/// A colour.
pub open spec fn rgb(r: u8, g: u8, b: u8) -> Rgb {
    Rgb { r, g, b }
}

/// The presets that come with the application, by number.
pub open spec fn builtin(n: int) -> (Seq<char>, ItemSettings) {
    if n == 0 {
        (
            "Comic"@,
            ItemSettings {
                solid_line_color: Some(rgb(0, 0, 0)),
                fill_style: FillStyle::Posterize { levels: 4 },
                gamma: Scalar { bits: GAMMA_FIRM_BITS },
                ..outlined(ComposeMode::LinesOnly, STRENGTH_70_BITS, 2)
            },
        )
    } else if n == 1 {
        (
            "Pencil Sketch"@,
            ItemSettings {
                fill_style: FillStyle::Desaturate,
                gamma: Scalar { bits: GAMMA_SOFT_BITS },
                ..outlined(ComposeMode::LinesOnly, STRENGTH_80_BITS, 0)
            },
        )
    } else if n == 2 {
        (
            "Neon Glow"@,
            ItemSettings {
                line_style: LineStyle::Rainbow { cycles: 2 },
                fill_style: FillStyle::Saturate { percent: 220 },
                ..outlined(ComposeMode::Ghosted, STRENGTH_60_BITS, 3)
            },
        )
    } else if n == 3 {
        (
            "Sepia"@,
            ItemSettings {
                solid_line_color: Some(rgb(70, 45, 20)),
                fill_style: FillStyle::Sepia,
                ..outlined(ComposeMode::LinesOnly, STRENGTH_60_BITS, 1)
            },
        )
    } else if n == 4 {
        (
            "Duotone Poster"@,
            ItemSettings {
                solid_line_color: Some(rgb(10, 10, 40)),
                fill_style: FillStyle::Duotone {
                    dark: rgb(20, 20, 60),
                    light: rgb(240, 220, 180),
                },
                ..outlined(ComposeMode::SubjectFilled, STRENGTH_60_BITS, 2)
            },
        )
    } else if n == 5 {
        (
            "X-Ray"@,
            ItemSettings {
                solid_line_color: Some(rgb(200, 230, 255)),
                fill_style: FillStyle::Invert,
                bg: Some(Rgba { r: 0, g: 0, b: 30, a: 255 }),
                ..outlined(ComposeMode::Ghosted, STRENGTH_80_BITS, 1)
            },
        )
    } else if n == 6 {
        (
            "Pop Art"@,
            ItemSettings {
                solid_line_color: Some(rgb(0, 0, 0)),
                fill_style: FillStyle::Posterize { levels: 3 },
                gamma: Scalar { bits: GAMMA_STRONG_BITS },
                ..outlined(ComposeMode::SubjectFilled, STRENGTH_65_BITS, 3)
            },
        )
    } else if n == 7 {
        (
            "Ghost"@,
            ItemSettings {
                solid_line_color: Some(rgb(230, 230, 235)),
                fill_style: FillStyle::Desaturate,
                ..outlined(ComposeMode::Ghosted, STRENGTH_55_BITS, 1)
            },
        )
    } else if n == 8 {
        (
            "Sunset Lines"@,
            ItemSettings {
                line_style: LineStyle::GradientY {
                    top: rgb(255, 180, 40),
                    bottom: rgb(120, 20, 90),
                },
                ..outlined(ComposeMode::LinesOnly, STRENGTH_70_BITS, 2)
            },
        )
    } else {
        (
            "Pixel Art"@,
            ItemSettings {
                solid_line_color: Some(rgb(0, 0, 0)),
                fill_style: FillStyle::Pixelate { block_size: 10 },
                ..outlined(ComposeMode::SubjectFilled, crate::pipeline::HALF_BITS, 2)
            },
        )
    }
}

/// Settings of an outlined look, before its colours.
fn outlined_settings(compose: ComposeMode, strength_bits: u32, thickness: u32) -> (r: ItemSettings)
    ensures
        r == outlined(compose, strength_bits, thickness),
{
    let mut s = ItemSettings::default();
    s.line_mode = LineMode::SubjectOutline;
    s.compose_mode = compose;
    s.line_strength = Scalar { bits: strength_bits };
    s.edge_thickness = thickness;
    s
}

/// Number of presets that come with the application.
pub const BUILTIN_COUNT: usize = 10;

/// One of the presets that come with the application.
fn builtin_preset(n: usize) -> (r: (&'static str, ItemSettings))
    requires
        n < BUILTIN_COUNT,
    ensures
        r.0@ == builtin(n as int).0,
        r.1 == builtin(n as int).1,
{
    if n == 0 {
        let mut s = outlined_settings(ComposeMode::LinesOnly, STRENGTH_70_BITS, 2);
        s.solid_line_color = Some(Rgb { r: 0, g: 0, b: 0 });
        s.fill_style = FillStyle::Posterize { levels: 4 };
        s.gamma = Scalar { bits: GAMMA_FIRM_BITS };
        ("Comic", s)
    } else if n == 1 {
        let mut s = outlined_settings(ComposeMode::LinesOnly, STRENGTH_80_BITS, 0);
        s.fill_style = FillStyle::Desaturate;
        s.gamma = Scalar { bits: GAMMA_SOFT_BITS };
        ("Pencil Sketch", s)
    } else if n == 2 {
        let mut s = outlined_settings(ComposeMode::Ghosted, STRENGTH_60_BITS, 3);
        s.line_style = LineStyle::Rainbow { cycles: 2 };
        s.fill_style = FillStyle::Saturate { percent: 220 };
        ("Neon Glow", s)
    } else if n == 3 {
        let mut s = outlined_settings(ComposeMode::LinesOnly, STRENGTH_60_BITS, 1);
        s.solid_line_color = Some(Rgb { r: 70, g: 45, b: 20 });
        s.fill_style = FillStyle::Sepia;
        ("Sepia", s)
    } else if n == 4 {
        let mut s = outlined_settings(ComposeMode::SubjectFilled, STRENGTH_60_BITS, 2);
        s.solid_line_color = Some(Rgb { r: 10, g: 10, b: 40 });
        s.fill_style = FillStyle::Duotone {
            dark: Rgb { r: 20, g: 20, b: 60 },
            light: Rgb { r: 240, g: 220, b: 180 },
        };
        ("Duotone Poster", s)
    } else if n == 5 {
        let mut s = outlined_settings(ComposeMode::Ghosted, STRENGTH_80_BITS, 1);
        s.solid_line_color = Some(Rgb { r: 200, g: 230, b: 255 });
        s.fill_style = FillStyle::Invert;
        s.bg = Some(Rgba { r: 0, g: 0, b: 30, a: 255 });
        ("X-Ray", s)
    } else if n == 6 {
        let mut s = outlined_settings(ComposeMode::SubjectFilled, STRENGTH_65_BITS, 3);
        s.solid_line_color = Some(Rgb { r: 0, g: 0, b: 0 });
        s.fill_style = FillStyle::Posterize { levels: 3 };
        s.gamma = Scalar { bits: GAMMA_STRONG_BITS };
        ("Pop Art", s)
    } else if n == 7 {
        let mut s = outlined_settings(ComposeMode::Ghosted, STRENGTH_55_BITS, 1);
        s.solid_line_color = Some(Rgb { r: 230, g: 230, b: 235 });
        s.fill_style = FillStyle::Desaturate;
        ("Ghost", s)
    } else if n == 8 {
        let mut s = outlined_settings(ComposeMode::LinesOnly, STRENGTH_70_BITS, 2);
        s.line_style = LineStyle::GradientY {
            top: Rgb { r: 255, g: 180, b: 40 },
            bottom: Rgb { r: 120, g: 20, b: 90 },
        };
        ("Sunset Lines", s)
    } else {
        let mut s = outlined_settings(ComposeMode::SubjectFilled, crate::pipeline::HALF_BITS, 2);
        s.solid_line_color = Some(Rgb { r: 0, g: 0, b: 0 });
        s.fill_style = FillStyle::Pixelate { block_size: 10 };
        ("Pixel Art", s)
    }
}

/// The presets that come with the application: looks that would otherwise take
/// several adjustments to find.
pub fn builtin_presets() -> (r: Vec<(&'static str, ItemSettings)>)
    ensures
        r@.len() == BUILTIN_COUNT,
        forall|i: int|
            0 <= i < r@.len() ==> (#[trigger] r@[i]).0@ == builtin(i).0 && r@[i].1 == builtin(i).1,
{
    let mut r: Vec<(&'static str, ItemSettings)> = Vec::new();
    let mut n: usize = 0;
    while n < BUILTIN_COUNT
        invariant
            n <= BUILTIN_COUNT,
            r@.len() == n,
            forall|i: int|
                0 <= i < n ==> (#[trigger] r@[i]).0@ == builtin(i).0 && r@[i].1 == builtin(i).1,
        decreases BUILTIN_COUNT - n,
    {
        r.push(builtin_preset(n));
        n += 1;
    }
    r
}

/// The presets that come with the application have names of their own, none of
/// them the factory preset's.
pub proof fn builtin_names_are_usable(i: int, j: int)
    requires
        0 <= i < j < BUILTIN_COUNT,
    ensures
        builtin(i).0 != builtin(j).0,
        !reserved(builtin(i).0),
        !reserved(builtin(j).0),
{
    reveal_strlit("Comic");
    reveal_strlit("Pencil Sketch");
    reveal_strlit("Neon Glow");
    reveal_strlit("Sepia");
    reveal_strlit("Duotone Poster");
    reveal_strlit("X-Ray");
    reveal_strlit("Pop Art");
    reveal_strlit("Ghost");
    reveal_strlit("Sunset Lines");
    reveal_strlit("Pixel Art");
    reveal_strlit("Prunr");
    let a = builtin(i).0;
    let b = builtin(j).0;
    if a == b {
        assert(a.len() == b.len() && a[0] == b[0] && a[1] == b[1]);
    }
    let p = PRUNR_PRESET@;
    if reserved(a) {
        assert(lowered(a).len() == lowered(p).len());
        assert(lowered(a)[0] == lowered(p)[0]);
    }
    if reserved(b) {
        assert(lowered(b).len() == lowered(p).len());
        assert(lowered(b)[0] == lowered(p)[0]);
    }
}

/// Which of the presets that come with the application are written: none once
/// they have been written, else those for which there is no file yet.
pub fn presets_to_seed(seeded: bool, exists: &Vec<bool>) -> (r: Vec<usize>)
    requires
        exists@.len() == BUILTIN_COUNT,
    ensures
        seeded ==> r@.len() == 0,
        !seeded ==> forall|i: usize| r@.contains(i) <==> i < BUILTIN_COUNT && !exists@[i as int],
        forall|i: int, j: int| 0 <= i < j < r@.len() ==> r@[i] < r@[j],
{
    let mut r: Vec<usize> = Vec::new();
    if seeded {
        return r;
    }
    let mut n: usize = 0;
    while n < BUILTIN_COUNT
        invariant
            n <= BUILTIN_COUNT,
            exists@.len() == BUILTIN_COUNT,
            forall|i: usize| r@.contains(i) <==> i < n && !exists@[i as int],
            forall|i: int, j: int| 0 <= i < j < r@.len() ==> r@[i] < r@[j],
        decreases BUILTIN_COUNT - n,
    {
        if !exists[n] {
            let ghost before = r@;
            assert forall|i: int| 0 <= i < before.len() implies before[i] < n by {
                assert(before.contains(before[i]));
            }
            r.push(n);
            assert forall|i: usize| r@.contains(i) <==> i < n + 1 && !exists@[i as int] by {
                if before.contains(i) {
                    assert(r@[before.index_of(i)] == i);
                }
                if i == n {
                    assert(r@[before.len() as int] == n);
                }
                if r@.contains(i) {
                    let k = r@.index_of(i);
                    if k < before.len() {
                        assert(before[k] == i);
                    }
                }
            }
        }
        n += 1;
    }
    r
}

proof fn allowed_texts_stay(s: Seq<char>)
    requires
        forall|i: int| 0 <= i < s.len() ==> allowed(#[trigger] s[i]),
    ensures
        allowed_only(s) == s,
    decreases s.len(),
{
    if s.len() > 0 {
        let t = s.drop_last();
        assert forall|i: int| 0 <= i < t.len() implies allowed(#[trigger] t[i]) by {
            assert(t[i] == s[i]);
        }
        allowed_texts_stay(t);
        assert(s.last() == s[s.len() - 1]);
        assert(t.push(s.last()) =~= s);
    }
}

proof fn single_dots_stay(s: Seq<char>)
    requires
        forall|i: int| 0 <= i < s.len() - 1 ==> !(#[trigger] s[i] == '.' && s[i + 1] == '.'),
    ensures
        no_dot_pairs(s) == s,
    decreases s.len(),
{
    if s.len() > 0 {
        let t = s.skip(1);
        assert forall|i: int| 0 <= i < t.len() - 1 implies !(#[trigger] t[i] == '.' && t[i + 1]
            == '.') by {
            assert(t[i] == s[i + 1] && t[i + 1] == s[i + 2]);
        }
        single_dots_stay(t);
        if s.len() >= 2 {
            assert(!(s[0] == '.' && s[1] == '.'));
        }
        assert(seq![s[0]] + t =~= s);
    }
}

/// An ordinary name is stored as it is: without separators, control characters, dots at
/// the start or in a row, and white space around it. So two such names never share a
/// file.
pub proof fn ordinary_names_are_kept(name: Seq<char>)
    requires
        name.len() > 0,
        trimmed(name) == name,
        name[0] != '.',
        forall|i: int| 0 <= i < name.len() ==> allowed(#[trigger] name[i]),
        forall|i: int| 0 <= i < name.len() - 1 ==> !(#[trigger] name[i] == '.' && name[i + 1]
            == '.'),
    ensures
        safe_stem(name) == name,
{
    allowed_texts_stay(name);
    single_dots_stay(name);
}

/// What was stored is found again: the file of a preset gives back the stem it was stored
/// under, unless that is the factory preset's.
pub proof fn stored_presets_are_found_again(dir: Seq<char>, name: Seq<char>)
    requires
        !reserved(safe_stem(name)),
    ensures
        stored_name(joined(dir, safe_stem(name) + ".json"@)) == Some(safe_stem(name)),
{
    let stem = safe_stem(name);
    safe_stem_is_safe(name);
    reveal_strlit(".json");
    reveal_strlit("json");
    let file = stem + ".json"@;
    assert(file =~= stem + seq!['.'] + "json"@);
    assert forall|k: int| 0 <= k < file.len() implies file[k] != '/' by {
        if k < stem.len() {
            assert(file[k] == stem[k]);
            assert(allowed(stem[k]));
        } else {
            assert(file[k] == ".json"@[k - stem.len()]);
        }
    }
    assert(file.len() >= 3);
    joined_names_are_found(dir, file);
    extensions_are_found(stem, "json"@);
}

/// The factory preset's name is taken in every spelling, and no other name is.
pub proof fn the_factory_name_is_taken(name: Seq<char>)
    ensures
        reserved(name) <==> name.len() == 5 && (name[0] == 'P' || name[0] == 'p') && (name[1] == 'R'
            || name[1] == 'r') && (name[2] == 'U' || name[2] == 'u') && (name[3] == 'N' || name[3]
            == 'n') && (name[4] == 'R' || name[4] == 'r'),
{
    reveal_strlit("Prunr");
    let want = lowered(PRUNR_PRESET@);
    assert(PRUNR_PRESET@.len() == 5);
    assert(want =~= seq!['p', 'r', 'u', 'n', 'r']);
    if reserved(name) {
        assert(lowered(name).len() == name.len());
        assert(lowered(name)[0] == 'p' && lowered(name)[1] == 'r' && lowered(name)[2] == 'u'
            && lowered(name)[3] == 'n' && lowered(name)[4] == 'r');
    } else if name.len() == 5 {
        if lowered(name)[0] == 'p' && lowered(name)[1] == 'r' && lowered(name)[2] == 'u' && lowered(
            name,
        )[3] == 'n' && lowered(name)[4] == 'r' {
            assert(lowered(name) =~= want);
        }
    }
}

/// Settings without a model are kept for the default model, as they are, and for no
/// other.
pub proof fn old_presets_keep_their_settings(s: ItemSettings, model: ModelId)
    ensures
        picture_preset(s).entry(default_model()) matches Some(e) && e.item_settings == s && e.sd
            is None,
        key_of(model) != key_of(default_model()) ==> picture_preset(s).entry(model) is None,
{
}

/// The presets that come with the application are looks: they outline the subject, and
/// leave the mask as the model made it but for its gamma.
pub proof fn builtin_presets_are_looks(n: int)
    requires
        0 <= n < BUILTIN_COUNT,
    ensures
        ({
            let s = builtin(n).1;
            let d = default_item_settings();
            &&& s.line_mode == LineMode::SubjectOutline
            &&& s.threshold == d.threshold && s.edge_shift == d.edge_shift && s.refine_edges
                == d.refine_edges && s.guided_radius == d.guided_radius && s.guided_epsilon
                == d.guided_epsilon && s.feather == d.feather
            &&& s.correction_hash is None && s.bg_image_hash is None
            &&& s.edge_scale == d.edge_scale && s.input_transform == d.input_transform
            &&& s.bg_effect == d.bg_effect
            &&& s.line_strength.rank() >= crate::pipeline::HALF_BITS
        }),
{
}

} // verus!
