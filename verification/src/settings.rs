//! Application-wide settings that presets and the eraser depend on.
use vstd::prelude::*;
use crate::brush_state::{
    default_brush, quality_of, with_quality, Brush, BrushSettings, QualityBundle, SdQualityPreset,
    };
use crate::pipeline::ModelId;
use crate::presets::{
    default_entry, default_preset, default_sd, key_of, model_id_key, resolve_preset_for_model,
    resolved_brush, Entry, ModelPreset, Preset, PresetFile, Sd,
    SdPreset, SdSchedulerBundle,
};
use crate::tables::NameTable;
use crate::text::same_text;

verus! {

/// Name of the preset that stands for the factory settings. It is never stored.
pub const PRUNR_PRESET: &'static str = "Prunr";

/// Model picked in the settings.
#[derive(Clone, Copy, Debug, PartialEq, Eq, Structural)]
pub enum SettingsModel {
    /// No model: drawing only.
    Nothing,
    Silueta,
    U2net,
    BiRefNetLite,
    LaMa,
    BigLaMa,
    SdInpaint,
}

impl SettingsModel {
    /// Registry entry of the picked model.
    pub open spec fn id(self) -> Option<ModelId> {
        match self {
            SettingsModel::Nothing => None,
            SettingsModel::Silueta => Some(ModelId::Silueta),
            SettingsModel::U2net => Some(ModelId::U2net),
            SettingsModel::BiRefNetLite => Some(ModelId::BiRefNetLite),
            SettingsModel::LaMa => Some(ModelId::LaMaFp32),
            SettingsModel::BigLaMa => Some(ModelId::BigLaMa),
            SettingsModel::SdInpaint => Some(ModelId::SdV15InpaintFp16),
        }
    }

    /// Registry entry of the picked model.
    pub fn to_model_id(self) -> (r: Option<ModelId>)
        ensures
            r == self.id(),
    {
        match self {
            SettingsModel::Nothing => None,
            SettingsModel::Silueta => Some(ModelId::Silueta),
            SettingsModel::U2net => Some(ModelId::U2net),
            SettingsModel::BiRefNetLite => Some(ModelId::BiRefNetLite),
            SettingsModel::LaMa => Some(ModelId::LaMaFp32),
            SettingsModel::BigLaMa => Some(ModelId::BigLaMa),
            SettingsModel::SdInpaint => Some(ModelId::SdV15InpaintFp16),
        }
    }
}

/// Application-wide settings.
pub struct Settings {
    pub model: SettingsModel,
    pub brush: BrushSettings,
    /// Name of the preset in effect.
    pub default_preset: String,
    pub presets: NameTable<PresetFile>,
}

impl Default for Settings {
    fn default() -> (r: Settings)
        ensures
            r.model == SettingsModel::BiRefNetLite,
            r.brush@ == default_brush(),
            r.default_preset@ == PRUNR_PRESET@,
            r.presets@ == Map::<Seq<char>, PresetFile>::empty(),
    {
        Settings {
            model: SettingsModel::BiRefNetLite,
            brush: BrushSettings::default(),
            default_preset: PRUNR_PRESET.to_owned(),
            presets: NameTable::new(),
        }
    }
}

impl Settings {
    /// What the preset under a name holds; the factory settings without one.
    pub open spec fn preset_named(&self, name: Seq<char>) -> Preset {
        if self.presets@.contains_key(name) {
            self.presets@[name]@
        } else {
            default_preset()
        }
    }

    /// Whether a quality level is written into the preset in effect: it is not
    /// the factory preset, and the model is one of Stable Diffusion.
    pub open spec fn writes_through(&self) -> bool {
        self.default_preset@ != PRUNR_PRESET@ && (self.model.id() matches Some(id)
            && id.sd_family())
    }
}

/// An entry with a quality level written into its eraser settings.
pub open spec fn entry_with_quality(e: Entry, q: QualityBundle, strength: crate::pipeline::Scalar) -> Entry {
    let sd = match e.sd {
        Some(sd) => sd,
        None => default_sd(),
    };
    Entry {
        sd: Some(
            Sd {
                active_scheduler: q.scheduler,
                schedulers: sd.schedulers.insert(
                    q.scheduler,
                    SdSchedulerBundle {
                        steps: q.steps,
                        guidance_scale: q.guidance_scale,
                        use_karras_sigmas: q.use_karras_sigmas,
                        strength,
                    },
                ),
                ..sd
            },
        ),
        ..e
    }
}

/// A preset entry that has to be written to disk.
pub struct PresetWrite {
    pub name: String,
    pub model: ModelId,
    pub entry: ModelPreset,
}

impl SdQualityPreset {
    /// Puts a quality level into effect. Where the preset in effect belongs to
    /// the user and the model is one of Stable Diffusion, the level goes into
    /// that preset, to be written to disk, and the brush is taken from it again;
    /// otherwise only the brush changes. The level `Custom` changes nothing.
    pub fn apply_to_settings(self, settings: &mut Settings) -> (r: Option<PresetWrite>)
        ensures
            final(settings).model == old(settings).model,
            final(settings).default_preset == old(settings).default_preset,
            match self.settings() {
                None => r is None && *final(settings) == *old(settings),
                Some(q) => if !old(settings).writes_through() {
                    &&& r is None
                    &&& final(settings).presets == old(settings).presets
                    &&& final(settings).brush@ == with_quality(old(settings).brush@, Some(q))
                } else {
                    let name = old(settings).default_preset@;
                    let id = old(settings).model.id()->0;
                    let before = old(settings).preset_named(name);
                    let entry = entry_with_quality(
                        match before.entry(id) {
                            Some(e) => e,
                            None => default_entry(),
                        },
                        q,
                        old(settings).brush.sd_strength,
                    );
                    let after = Preset {
                        models: before.models.insert(key_of(id), entry),
                        ..before
                    };
                    &&& r matches Some(w) && w.name@ == name && w.model == id && w.entry@ == entry
                    &&& final(settings).presets@.contains_key(name)
                    &&& final(settings).presets@[name]@.format_version == after.format_version
                    &&& final(settings).presets@[name]@.models == after.models
                    &&& final(settings).presets@.remove(name) == old(settings).presets@.remove(name)
                    &&& final(settings).brush@ == (Brush {
                        inpaint_feather: q.feather,
                        ..resolved_brush(after, id, None)
                    })
                },
            },
            self != SdQualityPreset::Custom ==> quality_of(final(settings).brush@) == self,
    {
        let q = match self.bundle() {
            Some(q) => q,
            None => {
                return None;
            },
        };
        let sd_model = match settings.model.to_model_id() {
            Some(id) => {
                if id.is_sd_family() && !same_text(settings.default_preset.as_str(), PRUNR_PRESET) {
                    Some(id)
                } else {
                    None
                }
            },
            None => None,
        };
        let model_id = match sd_model {
            Some(id) => id,
            None => {
                self.apply_to(&mut settings.brush);
                return None;
            },
        };
        let strength = settings.brush.sd_strength;
        let preset_name = settings.default_preset.clone();
        let ghost name = preset_name@;
        let ghost before = old(settings).preset_named(name);
        let mut file = match settings.presets.remove(preset_name.as_str()) {
            Some(f) => f,
            None => PresetFile::default(),
        };
        let key = model_id_key(model_id);
        let ghost key_chars = key@;
        let mut mp = match file.models.remove(key.as_str()) {
            Some(m) => m,
            None => ModelPreset::default(),
        };
        let mut sd = match mp.sd {
            Some(sd) => sd,
            None => SdPreset::default(),
        };
        sd.active_scheduler = q.scheduler;
        sd.schedulers.insert(
            q.scheduler,
            SdSchedulerBundle {
                steps: q.steps,
                guidance_scale: q.guidance_scale,
                use_karras_sigmas: q.use_karras_sigmas,
                strength,
            },
        );
        mp.sd = Some(sd);
        let entry = mp.clone();
        file.models.insert(key, mp);
        let ghost after = Preset {
            models: before.models.insert(key_chars, entry@),
            ..before
        };
        assert(file@.models =~= after.models);
        let resolved = resolve_preset_for_model(&file, model_id, None);
        settings.presets.insert(preset_name.clone(), file);
        settings.brush = resolved.brush;
        settings.brush.inpaint_feather = q.feather;
        assert(settings.presets@.remove(name) =~= old(settings).presets@.remove(name));
        Some(PresetWrite { name: preset_name, model: model_id, entry })
    }
}

/// The model that is picked is the model that is used: every choice but none has its own.
pub proof fn picked_models_are_used(a: SettingsModel, b: SettingsModel)
    ensures
        a.id() == b.id() <==> a == b,
        a.id() is None <==> a == SettingsModel::Nothing,
        a == SettingsModel::Silueta <==> a.id() == Some(ModelId::Silueta),
        a == SettingsModel::U2net <==> a.id() == Some(ModelId::U2net),
        a == SettingsModel::BiRefNetLite <==> a.id() == Some(ModelId::BiRefNetLite),
        a == SettingsModel::LaMa <==> a.id() == Some(ModelId::LaMaFp32),
        a == SettingsModel::BigLaMa <==> a.id() == Some(ModelId::BigLaMa),
        a == SettingsModel::SdInpaint <==> a.id() == Some(ModelId::SdV15InpaintFp16),
{
}

/// Writing a quality level into a preset changes the eraser's schedule and its numbers,
/// and keeps everything else: the picture settings, the brush, the texts, the seed and
/// the numbers of the other schedules.
pub proof fn levels_change_their_schedule_only(
    e: Entry,
    q: QualityBundle,
    strength: crate::pipeline::Scalar,
    other: crate::brush_state::SdScheduler,
)
    ensures
        ({
            let r = entry_with_quality(e, q, strength);
            &&& r.item_settings == e.item_settings
            &&& r.brush == e.brush
            &&& r.sd matches Some(sd) && {
                &&& sd.active_scheduler == q.scheduler
                &&& sd.schedulers.contains_key(q.scheduler)
                &&& sd.schedulers[q.scheduler].steps == q.steps
                &&& sd.schedulers[q.scheduler].guidance_scale == q.guidance_scale
                &&& sd.schedulers[q.scheduler].use_karras_sigmas == q.use_karras_sigmas
                &&& sd.schedulers[q.scheduler].strength == strength
                &&& e.sd matches Some(old_sd) ==> {
                    &&& sd.prompt == old_sd.prompt
                    &&& sd.negative_prompt == old_sd.negative_prompt
                    &&& sd.seed == old_sd.seed
                    &&& sd.use_taesd == old_sd.use_taesd
                    &&& other != q.scheduler ==> (sd.schedulers.contains_key(other)
                        <==> old_sd.schedulers.contains_key(other)) && (
                    old_sd.schedulers.contains_key(other) ==> sd.schedulers[other]
                        == old_sd.schedulers[other])
                }
            }
        }),
{
}

/// The factory preset is never written to, and neither is one while a model without
/// Stable Diffusion is picked.
pub proof fn only_own_presets_are_written(s: Settings)
    ensures
        s.default_preset@ == PRUNR_PRESET@ ==> !s.writes_through(),
        s.model != SettingsModel::SdInpaint ==> !s.writes_through(),
        s.model == SettingsModel::SdInpaint && s.default_preset@ != PRUNR_PRESET@
            ==> s.writes_through(),
{
}

/// A preset is found under the name it is stored under; another name stands for the
/// factory settings.
pub proof fn presets_go_by_their_name(s: Settings, name: Seq<char>)
    ensures
        s.presets@.contains_key(name) ==> s.preset_named(name) == s.presets@[name]@,
        !s.presets@.contains_key(name) ==> s.preset_named(name) == default_preset(),
{
}

} // verus!
