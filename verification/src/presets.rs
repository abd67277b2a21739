//! Presets: for every model, the settings of the picture, of the brush and of
//! the Stable Diffusion eraser, the last with one bundle for each schedule.
use vstd::prelude::*;
use crate::brush_state::{
    default_brush, Brush, BrushSettings, SdQualityPreset, SdScheduler, DEFAULT_SD_NEGATIVE_PROMPT,
    DEFAULT_SD_PROMPT,
    FOUR_BITS, ONE_AND_HALF_BITS, SEVEN_AND_HALF_BITS,
};
use crate::item_settings::{default_item_settings, ItemSettings};
use crate::pipeline::{ModelId, Scalar, ONE_BITS};
use crate::tables::NameTable;
use crate::text::same_text;

verus! {

/// Version of the preset format.
pub const PRESET_FORMAT_VERSION: u32 = 2;

/// Name under which a preset file keeps the settings of a model.
pub open spec fn key_of(id: ModelId) -> Seq<char> {
    match id {
        ModelId::Silueta => "Silueta"@,
        ModelId::U2net => "U2net"@,
        ModelId::BiRefNetLite => "BiRefNetLite"@,
        ModelId::LaMaFp32 => "LaMaFp32"@,
        ModelId::BigLaMa => "BigLaMa"@,
        ModelId::SdV15InpaintFp16 => "SdV15InpaintFp16"@,
        ModelId::SdV15LcmInpaintFp16 => "SdV15LcmInpaintFp16"@,
        ModelId::TaesdFp16 => "TaesdFp16"@,
    }
}

/// Name under which a preset file keeps the settings of a model.
pub fn model_id_key(id: ModelId) -> (r: String)
    ensures
        r@ == key_of(id),
{
    let name = match id {
        ModelId::Silueta => "Silueta",
        ModelId::U2net => "U2net",
        ModelId::BiRefNetLite => "BiRefNetLite",
        ModelId::LaMaFp32 => "LaMaFp32",
        ModelId::BigLaMa => "BigLaMa",
        ModelId::SdV15InpaintFp16 => "SdV15InpaintFp16",
        ModelId::SdV15LcmInpaintFp16 => "SdV15LcmInpaintFp16",
        ModelId::TaesdFp16 => "TaesdFp16",
    };
    name.to_owned()
}

/// Different models have different names.
pub proof fn model_keys_differ(a: ModelId, b: ModelId)
    ensures
        key_of(a) == key_of(b) <==> a == b,
{
    reveal_strlit("Silueta");
    reveal_strlit("U2net");
    reveal_strlit("BiRefNetLite");
    reveal_strlit("LaMaFp32");
    reveal_strlit("BigLaMa");
    reveal_strlit("SdV15InpaintFp16");
    reveal_strlit("SdV15LcmInpaintFp16");
    reveal_strlit("TaesdFp16");
    if key_of(a) == key_of(b) && a != b {
        assert(key_of(a).len() == key_of(b).len());
        assert(key_of(a)[0] == key_of(b)[0]);
    }
}

/// The model of a name. A name that stands for no model known here is passed
/// over.
pub fn model_id_from_key(s: &str) -> (r: Option<ModelId>)
    ensures
        match r {
            Some(id) => s@ == key_of(id),
            None => forall|id: ModelId| s@ != key_of(id),
        },
{
    if same_text(s, "Silueta") {
        Some(ModelId::Silueta)
    } else if same_text(s, "U2net") {
        Some(ModelId::U2net)
    } else if same_text(s, "BiRefNetLite") {
        Some(ModelId::BiRefNetLite)
    } else if same_text(s, "LaMaFp32") {
        Some(ModelId::LaMaFp32)
    } else if same_text(s, "BigLaMa") {
        Some(ModelId::BigLaMa)
    } else if same_text(s, "SdV15InpaintFp16") {
        Some(ModelId::SdV15InpaintFp16)
    } else if same_text(s, "SdV15LcmInpaintFp16") {
        Some(ModelId::SdV15LcmInpaintFp16)
    } else if same_text(s, "TaesdFp16") {
        Some(ModelId::TaesdFp16)
    } else {
        None
    }
}

/// Settings of one schedule.
#[derive(Clone, Copy, Debug, PartialEq, Eq, Structural)]
pub struct SdSchedulerBundle {
    pub steps: u32,
    pub guidance_scale: Scalar,
    pub use_karras_sigmas: bool,
    pub strength: Scalar,
}

/// Settings of a schedule for which a preset holds none.
pub open spec fn factory_bundle(scheduler: SdScheduler) -> SdSchedulerBundle {
    SdSchedulerBundle {
        steps: match scheduler {
            SdScheduler::Lcm => 8,
            SdScheduler::Ddim => 20,
            SdScheduler::DpmPlusPlus2MKarras => 25,
            SdScheduler::UniPc => 10,
            SdScheduler::EulerA => 25,
        },
        guidance_scale: Scalar {
            bits: match scheduler {
                SdScheduler::Lcm => ONE_AND_HALF_BITS,
                SdScheduler::Ddim => SEVEN_AND_HALF_BITS,
                SdScheduler::DpmPlusPlus2MKarras => FOUR_BITS,
                SdScheduler::UniPc => FOUR_BITS,
                SdScheduler::EulerA => SEVEN_AND_HALF_BITS,
            },
        },
        use_karras_sigmas: scheduler == SdScheduler::DpmPlusPlus2MKarras,
        strength: Scalar { bits: ONE_BITS },
    }
}

impl SdSchedulerBundle {
    /// Settings of a schedule for which a preset holds none.
    pub fn default_for(scheduler: SdScheduler) -> (r: SdSchedulerBundle)
        ensures
            r == factory_bundle(scheduler),
    {
        match scheduler {
            SdScheduler::Lcm => SdSchedulerBundle {
                steps: 8,
                guidance_scale: Scalar { bits: ONE_AND_HALF_BITS },
                use_karras_sigmas: false,
                strength: Scalar { bits: ONE_BITS },
            },
            SdScheduler::Ddim => SdSchedulerBundle {
                steps: 20,
                guidance_scale: Scalar { bits: SEVEN_AND_HALF_BITS },
                use_karras_sigmas: false,
                strength: Scalar { bits: ONE_BITS },
            },
            SdScheduler::DpmPlusPlus2MKarras => SdSchedulerBundle {
                steps: 25,
                guidance_scale: Scalar { bits: FOUR_BITS },
                use_karras_sigmas: true,
                strength: Scalar { bits: ONE_BITS },
            },
            SdScheduler::UniPc => SdSchedulerBundle {
                steps: 10,
                guidance_scale: Scalar { bits: FOUR_BITS },
                use_karras_sigmas: false,
                strength: Scalar { bits: ONE_BITS },
            },
            SdScheduler::EulerA => SdSchedulerBundle {
                steps: 25,
                guidance_scale: Scalar { bits: SEVEN_AND_HALF_BITS },
                use_karras_sigmas: false,
                strength: Scalar { bits: ONE_BITS },
            },
        }
    }
}

impl Default for SdSchedulerBundle {
    fn default() -> (r: SdSchedulerBundle)
        ensures
            r == factory_bundle(SdScheduler::Lcm),
    {
        SdSchedulerBundle::default_for(SdScheduler::Lcm)
    }
}

/// A bundle for each schedule, where there is one.
#[derive(Clone, Copy, Debug, PartialEq, Eq, Structural)]
pub struct SchedulerTable {
    pub lcm: Option<SdSchedulerBundle>,
    pub ddim: Option<SdSchedulerBundle>,
    pub dpm: Option<SdSchedulerBundle>,
    pub uni_pc: Option<SdSchedulerBundle>,
    pub euler_a: Option<SdSchedulerBundle>,
}

impl SchedulerTable {
    /// The bundle of a schedule.
    pub open spec fn at(self, s: SdScheduler) -> Option<SdSchedulerBundle> {
        match s {
            SdScheduler::Lcm => self.lcm,
            SdScheduler::Ddim => self.ddim,
            SdScheduler::DpmPlusPlus2MKarras => self.dpm,
            SdScheduler::UniPc => self.uni_pc,
            SdScheduler::EulerA => self.euler_a,
        }
    }

    /// The table as a map.
    pub open spec fn view(self) -> Map<SdScheduler, SdSchedulerBundle> {
        Map::new(|s: SdScheduler| self.at(s) is Some, |s: SdScheduler| self.at(s)->0)
    }

    /// A table without bundles.
    pub fn new() -> (r: SchedulerTable)
        ensures
            r@ == Map::<SdScheduler, SdSchedulerBundle>::empty(),
    {
        let r = SchedulerTable { lcm: None, ddim: None, dpm: None, uni_pc: None, euler_a: None };
        assert(r@ =~= Map::<SdScheduler, SdSchedulerBundle>::empty());
        r
    }

    /// The bundle of a schedule.
    pub fn get(&self, s: SdScheduler) -> (r: Option<SdSchedulerBundle>)
        ensures
            r == self.at(s),
            match r {
                Some(b) => self@.contains_key(s) && self@[s] == b,
                None => !self@.contains_key(s),
            },
    {
        match s {
            SdScheduler::Lcm => self.lcm,
            SdScheduler::Ddim => self.ddim,
            SdScheduler::DpmPlusPlus2MKarras => self.dpm,
            SdScheduler::UniPc => self.uni_pc,
            SdScheduler::EulerA => self.euler_a,
        }
    }

    /// Sets the bundle of a schedule.
    pub fn insert(&mut self, s: SdScheduler, b: SdSchedulerBundle)
        ensures
            final(self)@ == old(self)@.insert(s, b),
    {
        match s {
            SdScheduler::Lcm => self.lcm = Some(b),
            SdScheduler::Ddim => self.ddim = Some(b),
            SdScheduler::DpmPlusPlus2MKarras => self.dpm = Some(b),
            SdScheduler::UniPc => self.uni_pc = Some(b),
            SdScheduler::EulerA => self.euler_a = Some(b),
        }
        assert(self@ =~= old(self)@.insert(s, b));
    }
}

/// Settings of the Stable Diffusion eraser.
#[derive(Debug, PartialEq)]
pub struct SdPreset {
    pub prompt: String,
    pub negative_prompt: String,
    pub use_taesd: Option<bool>,
    pub seed: Option<u64>,
    pub active_scheduler: SdScheduler,
    pub schedulers: SchedulerTable,
}

/// What settings of the Stable Diffusion eraser hold.
pub struct Sd {
    pub prompt: Seq<char>,
    pub negative_prompt: Seq<char>,
    pub use_taesd: Option<bool>,
    pub seed: Option<u64>,
    pub active_scheduler: SdScheduler,
    pub schedulers: Map<SdScheduler, SdSchedulerBundle>,
}

impl View for SdPreset {
    type V = Sd;

    open spec fn view(&self) -> Sd {
        Sd {
            prompt: self.prompt@,
            negative_prompt: self.negative_prompt@,
            use_taesd: self.use_taesd,
            seed: self.seed,
            active_scheduler: self.active_scheduler,
            schedulers: self.schedulers@,
        }
    }
}

/// Eraser settings that a preset without its own stands for.
pub open spec fn default_sd() -> Sd {
    Sd {
        prompt: DEFAULT_SD_PROMPT@,
        negative_prompt: DEFAULT_SD_NEGATIVE_PROMPT@,
        use_taesd: None,
        seed: None,
        active_scheduler: SdScheduler::Lcm,
        schedulers: Map::empty(),
    }
}

impl Default for SdPreset {
    fn default() -> (r: SdPreset)
        ensures
            r@ == default_sd(),
    {
        SdPreset {
            prompt: DEFAULT_SD_PROMPT.to_owned(),
            negative_prompt: DEFAULT_SD_NEGATIVE_PROMPT.to_owned(),
            use_taesd: None,
            seed: None,
            active_scheduler: SdScheduler::Lcm,
            schedulers: SchedulerTable::new(),
        }
    }
}

impl Clone for SdPreset {
    fn clone(&self) -> (r: SdPreset)
        ensures
            r@ == self@,
    {
        SdPreset {
            prompt: self.prompt.clone(),
            negative_prompt: self.negative_prompt.clone(),
            use_taesd: self.use_taesd,
            seed: self.seed,
            active_scheduler: self.active_scheduler,
            schedulers: self.schedulers,
        }
    }
}

/// Settings that a preset holds for one model.
#[derive(Debug, PartialEq)]
pub struct ModelPreset {
    pub item_settings: ItemSettings,
    pub brush: BrushSettings,
    pub sd: Option<SdPreset>,
}

/// What a preset holds for one model.
pub struct Entry {
    pub item_settings: ItemSettings,
    pub brush: Brush,
    pub sd: Option<Sd>,
}

impl View for ModelPreset {
    type V = Entry;

    open spec fn view(&self) -> Entry {
        Entry {
            item_settings: self.item_settings,
            brush: self.brush@,
            sd: match self.sd {
                Some(sd) => Some(sd@),
                None => None,
            },
        }
    }
}

/// What a preset without an entry for a model stands for.
pub open spec fn default_entry() -> Entry {
    Entry { item_settings: default_item_settings(), brush: default_brush(), sd: None }
}

impl Default for ModelPreset {
    fn default() -> (r: ModelPreset)
        ensures
            r@ == default_entry(),
    {
        ModelPreset {
            item_settings: ItemSettings::default(),
            brush: BrushSettings::default(),
            sd: None,
        }
    }
}

impl Clone for ModelPreset {
    fn clone(&self) -> (r: ModelPreset)
        ensures
            r@ == self@,
    {
        ModelPreset {
            item_settings: self.item_settings,
            brush: self.brush.clone(),
            sd: match &self.sd {
                Some(sd) => Some(sd.clone()),
                None => None,
            },
        }
    }
}

/// A preset: settings by model name.
pub struct PresetFile {
    pub format_version: u32,
    pub models: NameTable<ModelPreset>,
}

/// What a preset holds.
pub struct Preset {
    pub format_version: u32,
    pub models: Map<Seq<char>, Entry>,
}

impl View for PresetFile {
    type V = Preset;

    open spec fn view(&self) -> Preset {
        Preset {
            format_version: self.format_version,
            models: self.models@.map_values(|m: ModelPreset| m@),
        }
    }
}

/// A preset without entries.
pub open spec fn default_preset() -> Preset {
    Preset { format_version: PRESET_FORMAT_VERSION, models: Map::empty() }
}

impl Default for PresetFile {
    fn default() -> (r: PresetFile)
        ensures
            r@ == default_preset(),
    {
        let r = PresetFile { format_version: PRESET_FORMAT_VERSION, models: NameTable::new() };
        assert(r@.models =~= Map::empty());
        r
    }
}

impl Preset {
    /// What a preset holds for a model.
    pub open spec fn entry(self, model: ModelId) -> Option<Entry> {
        if self.models.contains_key(key_of(model)) {
            Some(self.models[key_of(model)])
        } else {
            None
        }
    }
}

/// The settings a preset puts into effect.
pub struct ResolvedView {
    pub item_settings: ItemSettings,
    pub brush: BrushSettings,
}

/// The bundle that is used for a schedule.
pub open spec fn bundle_for(sd: Sd, s: SdScheduler) -> SdSchedulerBundle {
    if sd.schedulers.contains_key(s) {
        sd.schedulers[s]
    } else {
        factory_bundle(s)
    }
}

/// A brush with the eraser settings of a preset, for its own schedule or for
/// another one.
pub open spec fn with_sd(b: Brush, sd: Sd, scheduler: Option<SdScheduler>) -> Brush {
    let chosen = match scheduler {
        Some(s) => s,
        None => sd.active_scheduler,
    };
    let bundle = bundle_for(sd, chosen);
    Brush {
        sd_scheduler: chosen,
        sd_steps: bundle.steps,
        sd_guidance_scale: bundle.guidance_scale,
        sd_use_karras_sigmas: bundle.use_karras_sigmas,
        sd_strength: bundle.strength,
        sd_prompt: sd.prompt,
        sd_negative_prompt: sd.negative_prompt,
        sd_seed: sd.seed,
        sd_use_taesd: sd.use_taesd,
        ..b
    }
}

/// Writes the eraser settings of a preset into a brush.
fn apply_sd_to_brush(brush: &mut BrushSettings, sd: &SdPreset, scheduler: Option<SdScheduler>)
    ensures
        final(brush)@ == with_sd(old(brush)@, sd@, scheduler),
{
    let chosen = match scheduler {
        Some(s) => s,
        None => sd.active_scheduler,
    };
    let bundle = match sd.schedulers.get(chosen) {
        Some(b) => b,
        None => SdSchedulerBundle::default_for(chosen),
    };
    brush.sd_scheduler = chosen;
    brush.sd_steps = bundle.steps;
    brush.sd_guidance_scale = bundle.guidance_scale;
    brush.sd_use_karras_sigmas = bundle.use_karras_sigmas;
    brush.sd_strength = bundle.strength;
    brush.sd_prompt = sd.prompt.clone();
    brush.sd_negative_prompt = sd.negative_prompt.clone();
    brush.sd_seed = sd.seed;
    brush.sd_use_taesd = sd.use_taesd;
}

/// The brush that a preset puts into effect for a model.
pub open spec fn resolved_brush(p: Preset, model: ModelId, scheduler: Option<SdScheduler>) -> Brush {
    let entry = match p.entry(model) {
        Some(e) => e,
        None => default_entry(),
    };
    if model.sd_family() {
        with_sd(
            entry.brush,
            match entry.sd {
                Some(sd) => sd,
                None => default_sd(),
            },
            scheduler,
        )
    } else {
        entry.brush
    }
}

/// The picture settings that a preset puts into effect for a model.
pub open spec fn resolved_item(p: Preset, model: ModelId) -> ItemSettings {
    match p.entry(model) {
        Some(e) => e.item_settings,
        None => default_item_settings(),
    }
}

/// The settings that a preset puts into effect for a model. A schedule may be
/// given in place of the preset's own; it only counts for Stable Diffusion.
pub fn resolve_preset_for_model(
    file: &PresetFile,
    model: ModelId,
    scheduler: Option<SdScheduler>,
) -> (r: ResolvedView)
    ensures
        r.item_settings == resolved_item(file@, model),
        r.brush@ == resolved_brush(file@, model, scheduler),
{
    let key = model_id_key(model);
    let mp = file.models.get(key.as_str());
    let item_settings = match mp {
        Some(m) => m.item_settings,
        None => ItemSettings::default(),
    };
    let mut brush = match mp {
        Some(m) => m.brush.clone(),
        None => BrushSettings::default(),
    };
    if model.is_sd_family() {
        let mut applied = false;
        if let Some(m) = mp {
            if let Some(sd) = &m.sd {
                apply_sd_to_brush(&mut brush, sd, scheduler);
                applied = true;
            }
        }
        if !applied {
            let sd_default = SdPreset::default();
            apply_sd_to_brush(&mut brush, &sd_default, scheduler);
        }
    }
    ResolvedView { item_settings, brush }
}

/// The eraser settings of a brush as a preset keeps them.
pub open spec fn sd_of(b: Brush) -> Sd {
    Sd {
        prompt: b.sd_prompt,
        negative_prompt: b.sd_negative_prompt,
        use_taesd: b.sd_use_taesd,
        seed: b.sd_seed,
        active_scheduler: b.sd_scheduler,
        schedulers: Map::empty().insert(
            b.sd_scheduler,
            SdSchedulerBundle {
                steps: b.sd_steps,
                guidance_scale: b.sd_guidance_scale,
                use_karras_sigmas: b.sd_use_karras_sigmas,
                strength: b.sd_strength,
            },
        ),
    }
}

/// Splits a brush into the parts that a preset keeps for a model.
pub fn split_brush_for_save(brush: &BrushSettings, model: ModelId) -> (r: (
    BrushSettings,
    Option<SdPreset>,
))
    ensures
        r.0@ == brush@,
        match r.1 {
            Some(sd) => model.sd_family() && sd@ == sd_of(brush@),
            None => !model.sd_family(),
        },
{
    if !model.is_sd_family() {
        return (brush.clone(), None);
    }
    let mut schedulers = SchedulerTable::new();
    schedulers.insert(
        brush.sd_scheduler,
        SdSchedulerBundle {
            steps: brush.sd_steps,
            guidance_scale: brush.sd_guidance_scale,
            use_karras_sigmas: brush.sd_use_karras_sigmas,
            strength: brush.sd_strength,
        },
    );
    let sd = SdPreset {
        prompt: brush.sd_prompt.clone(),
        negative_prompt: brush.sd_negative_prompt.clone(),
        use_taesd: brush.sd_use_taesd,
        seed: brush.sd_seed,
        active_scheduler: brush.sd_scheduler,
        schedulers,
    };
    (brush.clone(), Some(sd))
}

/// The brush that an entry stands for.
pub open spec fn fused(e: Entry, scheduler: Option<SdScheduler>) -> Brush {
    match e.sd {
        Some(sd) => with_sd(e.brush, sd, scheduler),
        None => e.brush,
    }
}

/// Joins the parts that a preset keeps for a model into one brush.
pub fn fuse_brush_for_apply(mp: &ModelPreset, scheduler: Option<SdScheduler>) -> (r: BrushSettings)
    ensures
        r@ == fused(mp@, scheduler),
{
    let mut brush = mp.brush.clone();
    if let Some(sd) = &mp.sd {
        apply_sd_to_brush(&mut brush, sd, scheduler);
    }
    brush
}

/// Saving a brush and applying it again gives the same brush, for every model,
/// with the preset's own schedule or with the brush's.
pub proof fn split_then_fuse_round_trips(b: Brush, item: ItemSettings, model: ModelId)
    ensures
        ({
            let saved = Entry {
                item_settings: item,
                brush: b,
                sd: if model.sd_family() {
                    Some(sd_of(b))
                } else {
                    None
                },
            };
            &&& fused(saved, None) == b
            &&& fused(saved, Some(b.sd_scheduler)) == b
        }),
{
}

/// A preset that was saved from a brush brings that brush back when it is
/// applied to the same model.
pub proof fn saved_preset_resolves_to_its_brush(
    p: Preset,
    b: Brush,
    item: ItemSettings,
    model: ModelId,
)
    ensures
        ({
            let saved = Entry {
                item_settings: item,
                brush: b,
                sd: if model.sd_family() {
                    Some(sd_of(b))
                } else {
                    None
                },
            };
            let q = Preset { models: p.models.insert(key_of(model), saved), ..p };
            &&& resolved_brush(q, model, None) == b
            &&& resolved_item(q, model) == item
        }),
{
}

/// For a model without Stable Diffusion the schedule does not count.
pub proof fn schedule_only_counts_for_sd(
    p: Preset,
    model: ModelId,
    a: Option<SdScheduler>,
    b: Option<SdScheduler>,
)
    requires
        !model.sd_family(),
    ensures
        resolved_brush(p, model, a) == resolved_brush(p, model, b),
{
}

/// A preset keeps each text and number of the eraser under its own name, and the numbers
/// of the schedule under that schedule.
pub proof fn saved_eraser_settings_keep_their_names(b: Brush)
    ensures
        sd_of(b).prompt == b.sd_prompt,
        sd_of(b).negative_prompt == b.sd_negative_prompt,
        sd_of(b).seed == b.sd_seed,
        sd_of(b).use_taesd == b.sd_use_taesd,
        sd_of(b).active_scheduler == b.sd_scheduler,
        sd_of(b).schedulers.contains_key(b.sd_scheduler),
        sd_of(b).schedulers[b.sd_scheduler].steps == b.sd_steps,
        sd_of(b).schedulers[b.sd_scheduler].guidance_scale == b.sd_guidance_scale,
        sd_of(b).schedulers[b.sd_scheduler].use_karras_sigmas == b.sd_use_karras_sigmas,
        sd_of(b).schedulers[b.sd_scheduler].strength == b.sd_strength,
{
}

/// Applying a preset gives the brush its texts, and the numbers of the schedule that is
/// used: the given one, else the preset's own. A schedule without numbers of its own gets
/// those it comes with. The tip of the brush and what happens around the filled region
/// stay.
pub proof fn applied_eraser_settings_are_the_presets(b: Brush, sd: Sd, scheduler: Option<SdScheduler>)
    ensures
        ({
            let c = with_sd(b, sd, scheduler);
            let s = c.sd_scheduler;
            &&& c.sd_prompt == sd.prompt
            &&& c.sd_negative_prompt == sd.negative_prompt
            &&& c.sd_seed == sd.seed
            &&& c.sd_use_taesd == sd.use_taesd
            &&& scheduler matches Some(t) ==> s == t
            &&& scheduler is None ==> s == sd.active_scheduler
            &&& sd.schedulers.contains_key(s) ==> {
                &&& c.sd_steps == sd.schedulers[s].steps
                &&& c.sd_guidance_scale == sd.schedulers[s].guidance_scale
                &&& c.sd_use_karras_sigmas == sd.schedulers[s].use_karras_sigmas
                &&& c.sd_strength == sd.schedulers[s].strength
            }
            &&& !sd.schedulers.contains_key(s) ==> {
                &&& c.sd_steps == factory_bundle(s).steps
                &&& c.sd_guidance_scale == factory_bundle(s).guidance_scale
                &&& c.sd_use_karras_sigmas == factory_bundle(s).use_karras_sigmas
                &&& c.sd_strength == factory_bundle(s).strength
            }
            &&& c.radius == b.radius && c.hardness == b.hardness && c.strength == b.strength
            &&& c.mode == b.mode && c.shape == b.shape
            &&& c.inpaint_sharpen == b.inpaint_sharpen
            &&& c.inpaint_feather == b.inpaint_feather
            &&& c.inpaint_grow == b.inpaint_grow
        }),
{
}

/// The numbers that a schedule comes with are those of the quality level that uses it.
pub proof fn schedules_come_at_their_level()
    ensures
        ({
            let fast = factory_bundle(SdScheduler::Lcm);
            let best = factory_bundle(SdScheduler::DpmPlusPlus2MKarras);
            let balanced = SdQualityPreset::Balanced.settings()->0;
            let quality = SdQualityPreset::Quality.settings()->0;
            &&& fast.steps == balanced.steps && fast.guidance_scale == balanced.guidance_scale
            &&& fast.use_karras_sigmas == balanced.use_karras_sigmas
            &&& best.steps == quality.steps && best.guidance_scale == quality.guidance_scale
            &&& best.use_karras_sigmas == quality.use_karras_sigmas
        }),
        forall|s: SdScheduler| (#[trigger] factory_bundle(s)).strength.bits == ONE_BITS,
        forall|s: SdScheduler|
            (#[trigger] factory_bundle(s)).use_karras_sigmas <==> s
                == SdScheduler::DpmPlusPlus2MKarras,
{
}

/// What presets are taken to hold is what their fields hold.
pub proof fn presets_hold_their_fields(sd: SdPreset, mp: ModelPreset, file: PresetFile)
    ensures
        sd@.prompt == sd.prompt@,
        sd@.negative_prompt == sd.negative_prompt@,
        sd@.use_taesd == sd.use_taesd,
        sd@.seed == sd.seed,
        sd@.active_scheduler == sd.active_scheduler,
        sd@.schedulers == sd.schedulers@,
        mp@.item_settings == mp.item_settings,
        mp@.brush == mp.brush@,
        mp@.sd is Some <==> mp.sd is Some,
        mp.sd matches Some(s) ==> mp@.sd == Some(s@),
        file@.format_version == file.format_version,
        file@.models.dom() == file.models@.dom(),
        forall|k: Seq<char>| #[trigger]
            file.models@.contains_key(k) ==> file@.models[k] == file.models@[k]@,
{
    assert(file@.models.dom() =~= file.models@.dom());
}

/// A table keeps the numbers of each schedule apart.
pub proof fn schedules_are_kept_apart(t: SchedulerTable, s: SdScheduler)
    ensures
        t@.contains_key(s) <==> t.at(s) is Some,
        s == SdScheduler::Lcm ==> t.at(s) == t.lcm,
        s == SdScheduler::Ddim ==> t.at(s) == t.ddim,
        s == SdScheduler::DpmPlusPlus2MKarras ==> t.at(s) == t.dpm,
        s == SdScheduler::UniPc ==> t.at(s) == t.uni_pc,
        s == SdScheduler::EulerA ==> t.at(s) == t.euler_a,
{
}

/// A model for which a preset holds nothing gets what a new user starts with; one for
/// which it holds something gets that, whatever it holds for others.
pub proof fn presets_speak_for_their_models(p: Preset, q: Preset, model: ModelId)
    requires
        p.entry(model) == q.entry(model),
    ensures
        resolved_item(p, model) == resolved_item(q, model),
        resolved_brush(p, model, None) == resolved_brush(q, model, None),
        p.entry(model) is None ==> resolved_item(p, model) == default_item_settings(),
        p.entry(model) is None && !model.sd_family() ==> resolved_brush(p, model, None)
            == default_brush(),
        p.entry(model) matches Some(e) ==> resolved_item(p, model) == e.item_settings,
{
}

/// The faster a schedule is meant to be, the fewer steps it takes as it comes.
pub proof fn fast_schedules_take_few_steps(sd: Sd, s: SdScheduler)
    ensures
        factory_bundle(SdScheduler::Lcm).steps < factory_bundle(SdScheduler::UniPc).steps,
        factory_bundle(SdScheduler::UniPc).steps < factory_bundle(SdScheduler::Ddim).steps,
        factory_bundle(SdScheduler::Ddim).steps < factory_bundle(
            SdScheduler::DpmPlusPlus2MKarras,
        ).steps,
        factory_bundle(SdScheduler::EulerA).steps == factory_bundle(
            SdScheduler::DpmPlusPlus2MKarras,
        ).steps,
        factory_bundle(s).steps > 0,
        sd.schedulers.contains_key(s) ==> bundle_for(sd, s) == sd.schedulers[s],
        !sd.schedulers.contains_key(s) ==> bundle_for(sd, s) == factory_bundle(s),
{
}

} // verus!
