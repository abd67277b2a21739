//! One picture of a batch: its source, its result, the caches derived from them,
//! its undo stacks and its status.
use vstd::prelude::*;
use std::collections::hash_map::DefaultHasher;
use std::collections::VecDeque;
use std::hash::Hasher;
use std::sync::Arc;
use vstd::bytes::{spec_u32_to_le_bytes, spec_u64_to_le_bytes, u32_to_le_bytes, u64_to_le_bytes};
use vstd::std_specs::hash::DefaultHasherAdditionalSpecFns;
use crate::cli::{background, Background};
use crate::history_disk::{
    compress_to_ram, decompress_from_ram, framed, restore, restored, zstd_frame, CompressedEntry,
    DiskHistoryEntry, ZSTD_LEVEL,
};
use crate::item_settings::{strip_alpha, ItemSettings};
use crate::knob_catalog::CacheImpact;
use crate::pipeline::{EdgeScale, MaskRecipe, ModelKind, ProcessingRecipe};
use crate::pixmap::{share, share_opt, Picture, Pixmap, RawImage};

verus! {

/// Number of strokes that can be undone.
pub const STROKE_HISTORY_DEPTH: usize = 50;

/// The newest entries of a stack, at most `depth` of them.
pub open spec fn newest<T>(s: Seq<T>, depth: int) -> Seq<T> {
    if s.len() > depth {
        s.skip(s.len() - depth)
    } else {
        s
    }
}

/// Pushes onto a stack and drops the oldest entries beyond `depth`.
pub fn push_bounded<T>(stack: &mut VecDeque<T>, entry: T, depth: usize)
    ensures
        final(stack)@ == newest(old(stack)@.push(entry), depth as int),
{
    stack.push_back(entry);
    let ghost all = stack@;
    let ghost mut dropped: int = 0;
    assert(all.skip(0) =~= all);
    while stack.len() > depth
        invariant
            0 <= dropped <= all.len(),
            stack@ == all.skip(dropped),
            dropped > 0 ==> stack@.len() >= depth,
        decreases stack@.len(),
    {
        stack.pop_front();
        proof {
            assert(all.skip(dropped).subrange(1, all.len() - dropped) =~= all.skip(dropped + 1));
            dropped = dropped + 1;
        }
    }
    assert(stack@ =~= newest(all, depth as int));
}

/// A correction painted over a mask, at the resolution of the model.
pub struct MaskCorrection {
    pub width: u16,
    pub height: u16,
    pub cells: Vec<i8>,
    /// Fingerprint of the contents.
    pub hash: u64,
}

/// Fingerprint of a correction, where there is one.
pub open spec fn hash_of(c: Option<Arc<MaskCorrection>>) -> Option<u64> {
    match c {
        Some(m) => Some(m.hash),
        None => None,
    }
}

/// A background picture.
pub struct BgImage {
    pub source_path: Option<String>,
    pub image: Arc<RawImage>,
    /// Fingerprint of the contents.
    pub hash: u64,
}

/// A length as a machine word, little end first.
pub open spec fn word_bytes(n: usize) -> Seq<u8> {
    if usize::BITS == 32 {
        spec_u32_to_le_bytes(n as u32)
    } else {
        spec_u64_to_le_bytes(n as u64)
    }
}

/// Fingerprint of a picture as it was decoded: its size, the number of its bytes as a
/// machine word, and the bytes through the standard hasher. Numbers go in little end
/// first, as the machines that this runs on lay them out.
pub open spec fn fingerprint(image: RawImage) -> u64 {
    DefaultHasher::spec_finish(
        seq![
            spec_u32_to_le_bytes(image.width),
            spec_u32_to_le_bytes(image.height),
            word_bytes(image.bytes@.len() as usize),
            image.bytes@,
        ],
    )
}

/// A length as a machine word, little end first.
fn to_word_bytes(n: usize) -> (r: Vec<u8>)
    ensures
        r@ == word_bytes(n),
{
    if usize::BITS == 32 {
        u32_to_le_bytes(n as u32)
    } else {
        u64_to_le_bytes(n as u64)
    }
}

/// Fingerprint of a picture as it was decoded.
pub fn bg_image_content_hash(image: &RawImage) -> (r: u64)
    ensures
        r == fingerprint(*image),
{
    let mut h = DefaultHasher::new();
    let w = u32_to_le_bytes(image.width);
    let t = u32_to_le_bytes(image.height);
    let n = to_word_bytes(image.bytes.len());
    h.write(w.as_slice());
    h.write(t.as_slice());
    h.write(n.as_slice());
    h.write(image.bytes.as_slice());
    assert(h@ =~= seq![
        spec_u32_to_le_bytes(image.width),
        spec_u32_to_le_bytes(image.height),
        word_bytes(image.bytes@.len() as usize),
        image.bytes@,
    ]);
    h.finish()
}

/// A picture in the undo history: as it is, compressed, or in a file.
pub enum HistorySlot {
    InMemory(Arc<Pixmap>),
    Compressed(CompressedEntry),
    OnDisk(DiskHistoryEntry),
}

/// The picture that data stands for, if it stands for one.
pub open spec fn picture_of(data: Seq<u8>) -> Option<Picture> {
    match restored(data) {
        Ok(p) => Some(p),
        Err(_) => None,
    }
}

/// View of the contents of a file, where it could be read.
pub open spec fn file_view(file: Option<&Vec<u8>>) -> Option<Seq<u8>> {
    match file {
        Some(v) => Some(v@),
        None => None,
    }
}

/// View of an optional picture.
pub open spec fn picture_view(p: Option<Arc<Pixmap>>) -> Option<Picture> {
    match p {
        Some(x) => Some(x@),
        None => None,
    }
}

impl HistorySlot {
    /// The picture that a slot gives back, given what its file holds.
    pub open spec fn picture(&self, file: Option<Seq<u8>>) -> Option<Picture> {
        match *self {
            HistorySlot::InMemory(p) => Some(p@),
            HistorySlot::Compressed(e) => picture_of(e.data@),
            HistorySlot::OnDisk(_) => match file {
                Some(data) => picture_of(data),
                None => None,
            },
        }
    }

    /// Whether a slot holds a picture in memory, so that no file matters.
    pub open spec fn holds(&self, p: Picture) -> bool {
        !(*self is OnDisk) && self.picture(None) == Some(p)
    }

    /// Whether a slot is what a picture is packed into: its compressed form, or, where
    /// the compressor fails, the picture itself.
    pub open spec fn packs(&self, rgba: Arc<Pixmap>) -> bool {
        match zstd_frame(framed(rgba@), ZSTD_LEVEL) {
            Some(f) => *self matches HistorySlot::Compressed(e) && e.data@ == f,
            None => *self == HistorySlot::InMemory(rgba),
        }
    }

    /// Whether a picture that is kept as it is fills its size.
    pub open spec fn wf(&self) -> bool {
        *self matches HistorySlot::InMemory(p) ==> p.wf()
    }

    /// Compresses a picture. Where that fails the picture is kept as it is.
    pub fn compress(rgba: Arc<Pixmap>) -> (r: HistorySlot)
        requires
            rgba.wf(),
        ensures
            r.packs(rgba),
            r.holds(rgba@),
            r.wf(),
    {
        match compress_to_ram(&rgba) {
            Ok(e) => HistorySlot::Compressed(e),
            Err(_) => HistorySlot::InMemory(rgba),
        }
    }

    /// The bytes to write in order to move a slot into a file. `None` where it
    /// is in one already or the picture cannot be compressed.
    pub fn disk_bytes(&self) -> (r: Option<Vec<u8>>)
        ensures
            *self is OnDisk ==> r is None,
            *self matches HistorySlot::Compressed(e) ==> (r matches Some(v) && v@ == e.data@),
            *self matches HistorySlot::InMemory(p) ==> match zstd_frame(framed(p@), ZSTD_LEVEL) {
                Some(f) => r matches Some(v) && v@ == f && (p.wf() ==> picture_of(f) == Some(p@)),
                None => r is None,
            },
    {
        match self {
            HistorySlot::InMemory(p) => match compress_to_ram(p) {
                Ok(e) => Some(e.data),
                Err(_) => None,
            },
            HistorySlot::Compressed(e) => Some(e.data.clone()),
            HistorySlot::OnDisk(_) => None,
        }
    }

    /// Moves a slot into the file that was written for it. Without one it stays.
    pub fn demote_to_disk(self, written: Option<String>) -> (r: HistorySlot)
        ensures
            r == match written {
                Some(path) => if self is OnDisk {
                    self
                } else {
                    HistorySlot::OnDisk(DiskHistoryEntry { path })
                },
                None => self,
            },
    {
        match self {
            HistorySlot::OnDisk(e) => HistorySlot::OnDisk(e),
            other => match written {
                Some(path) => HistorySlot::OnDisk(DiskHistoryEntry { path }),
                None => other,
            },
        }
    }

    /// Gives the picture back. `file` is what the slot's file holds, if it has
    /// one that could be read. The file is to be deleted once its picture was
    /// restored, and only then.
    pub fn into_rgba(self, file: Option<&Vec<u8>>) -> (r: Restored)
        ensures
            picture_view(r.image) == self.picture(file_view(file)),
            r.image matches Some(p) ==> p.wf() || self is InMemory,
            r.image matches Some(p) ==> (self matches HistorySlot::InMemory(q) ==> p == q),
            r.delete == match self {
                HistorySlot::OnDisk(e) => if r.image is Some {
                    Some(e.path)
                } else {
                    None
                },
                _ => None,
            },
    {
        match self {
            HistorySlot::InMemory(p) => Restored { image: Some(p), delete: None },
            HistorySlot::Compressed(e) => match decompress_from_ram(&e) {
                Ok(p) => Restored { image: Some(Arc::new(p)), delete: None },
                Err(_) => Restored { image: None, delete: None },
            },
            HistorySlot::OnDisk(e) => match file {
                Some(data) => match restore(data.as_slice()) {
                    Ok(p) => Restored { image: Some(Arc::new(p)), delete: Some(e.path) },
                    Err(_) => Restored { image: None, delete: None },
                },
                None => Restored { image: None, delete: None },
            },
        }
    }

    /// The file to delete when a slot is dropped.
    pub fn cleanup(self) -> (r: Option<String>)
        ensures
            r == match self {
                HistorySlot::OnDisk(e) => Some(e.path),
                _ => None,
            },
    {
        match self {
            HistorySlot::OnDisk(e) => Some(e.path),
            _ => None,
        }
    }
}

/// A picture that was given back, and the file that is no longer needed.
pub struct Restored {
    pub image: Option<Arc<Pixmap>>,
    pub delete: Option<String>,
}

impl Default for HistorySlot {
    /// One transparent pixel.
    fn default() -> (r: HistorySlot)
        ensures
            r.holds(Picture { width: 1, height: 1, bytes: seq![0u8, 0u8, 0u8, 0u8] }),
            r is InMemory,
    {
        let data: Vec<u8> = vec![0u8, 0u8, 0u8, 0u8];
        assert(data@ =~= seq![0u8, 0u8, 0u8, 0u8]);
        HistorySlot::InMemory(Arc::new(Pixmap { width: 1, height: 1, data }))
    }
}

/// A picture in the undo history and the recipe that made it.
pub struct HistoryEntry {
    pub slot: HistorySlot,
    pub recipe: Option<ProcessingRecipe>,
}

impl HistoryEntry {
    /// Whether an entry holds a picture in memory, with its recipe.
    pub open spec fn holds(&self, p: Picture, recipe: Option<ProcessingRecipe>) -> bool {
        self.slot.holds(p) && self.recipe == recipe
    }

    /// Whether an entry is what a picture and its recipe are packed into.
    pub open spec fn packs(&self, rgba: Arc<Pixmap>, recipe: Option<ProcessingRecipe>) -> bool {
        self.slot.packs(rgba) && self.holds(rgba@, recipe)
    }

    /// An entry for a picture and its recipe.
    pub fn new(rgba: Arc<Pixmap>, recipe: Option<ProcessingRecipe>) -> (r: HistoryEntry)
        requires
            rgba.wf(),
        ensures
            r.packs(rgba, recipe),
            r.slot.wf(),
    {
        HistoryEntry { slot: HistorySlot::compress(rgba), recipe }
    }

    /// The file to delete when an entry is dropped.
    pub fn cleanup(self) -> (r: Option<String>)
        ensures
            r == match self.slot {
                HistorySlot::OnDisk(e) => Some(e.path),
                _ => None,
            },
    {
        self.slot.cleanup()
    }

    /// Moves an entry into the file that was written for it.
    pub fn demote_to_disk(self, written: Option<String>) -> (r: HistoryEntry)
        ensures
            r.recipe == self.recipe,
            r.slot == match written {
                Some(path) => if self.slot is OnDisk {
                    self.slot
                } else {
                    HistorySlot::OnDisk(DiskHistoryEntry { path })
                },
                None => self.slot,
            },
    {
        HistoryEntry { slot: self.slot.demote_to_disk(written), recipe: self.recipe }
    }

    /// The picture's slot and its recipe.
    pub fn into_parts(self) -> (r: (HistorySlot, Option<ProcessingRecipe>))
        ensures
            r.0 == self.slot,
            r.1 == self.recipe,
    {
        (self.slot, self.recipe)
    }
}

/// Where the bytes of a picture are.
pub enum ImageSource {
    /// In a file, read when needed.
    Path(String),
    /// In memory, from the clipboard or a drop.
    Bytes(Arc<Vec<u8>>),
}

impl ImageSource {
    /// The bytes, where they are in memory; else the file has to be read.
    pub fn inline_bytes(&self) -> (r: Option<Arc<Vec<u8>>>)
        ensures
            r == match *self {
                ImageSource::Path(_) => None,
                ImageSource::Bytes(b) => Some(b),
            },
    {
        match self {
            ImageSource::Path(_) => None,
            ImageSource::Bytes(b) => Some(share(b)),
        }
    }

    /// Number of bytes, for estimating memory. A file whose length is not known
    /// counts as empty.
    pub fn estimated_size(&self, file_len: Option<usize>) -> (r: usize)
        ensures
            r == match *self {
                ImageSource::Path(_) => match file_len {
                    Some(n) => n as nat,
                    None => 0,
                },
                ImageSource::Bytes(b) => b@.len(),
            },
    {
        match self {
            ImageSource::Path(_) => match file_len {
                Some(n) => n,
                None => 0,
            },
            ImageSource::Bytes(b) => b.len(),
        }
    }
}

/// Everything that applying a preset replaces.
pub struct PresetSnapshot {
    pub settings: ItemSettings,
    pub applied_preset: String,
}

/// Where a picture is in processing.
#[derive(Debug, PartialEq)]
pub enum BatchStatus {
    Pending,
    Processing,
    Done,
    Error(String),
}

/// A compressed tensor that the inference engine keeps for an item.
#[derive(Clone, Copy, Debug, PartialEq, Eq, Structural)]
pub struct CachedTensor {
    /// Number under which the engine finds it again.
    pub handle: u64,
    /// Bytes it takes.
    pub size: usize,
}

/// Edge tensor of one scale, decompressed.
#[derive(Clone, Copy, Debug, PartialEq, Eq, Structural)]
pub struct HotEdgeTensor {
    pub scale: EdgeScale,
    pub handle: u64,
}

/// Edge mask for one strength and scale.
#[derive(Clone, Copy, Debug, PartialEq, Eq, Structural)]
pub struct EdgeMask {
    pub handle: u64,
    pub line_strength_bits: u32,
    pub scale: EdgeScale,
}

/// The cut-out subject for given mask settings and model.
pub struct MaskedBase {
    pub image: Arc<Pixmap>,
    pub mask: MaskRecipe,
    pub model: ModelKind,
}

/// A finished picture from the inference engine. The provider is empty when
/// nothing was inferred.
pub struct ProcessResult {
    pub rgba_image: Pixmap,
    pub active_provider: String,
}

/// What of an item is drawn, and what is being prepared for drawing.
#[derive(Clone, Copy, Debug, PartialEq, Eq, Structural)]
pub struct Drawn {
    /// Whether the source is also kept in the engine's own form.
    pub source_dyn: bool,
    pub source_texture: bool,
    pub thumb_texture: bool,
    pub thumb_pending: bool,
    pub result_texture: bool,
    pub source_tex_pending: bool,
    pub result_tex_pending: bool,
    pub decode_pending: bool,
    pub bg_image_texture: bool,
}

/// Nothing drawn and nothing being prepared.
pub open spec fn nothing_drawn() -> Drawn {
    Drawn {
        source_dyn: false,
        source_texture: false,
        thumb_texture: false,
        thumb_pending: false,
        result_texture: false,
        source_tex_pending: false,
        result_tex_pending: false,
        decode_pending: false,
        bg_image_texture: false,
    }
}

/// Tensors kept for reruns, and what was derived from them.
pub struct Caches {
    /// Segmentation.
    pub tensor: Option<CachedTensor>,
    /// Edges at all scales.
    pub edge_tensors: Option<CachedTensor>,
    /// Edges at the scale in use, decompressed.
    pub hot_edge: Option<HotEdgeTensor>,
    /// Edge mask for the strength and scale in use.
    pub edge_mask: Option<EdgeMask>,
    pub masked_base: Option<MaskedBase>,
}

impl Caches {
    /// The caches without those that an impact makes stale.
    pub open spec fn after(self, impact: CacheImpact) -> Caches {
        Caches {
            tensor: if impact.drops_seg() {
                None
            } else {
                self.tensor
            },
            edge_tensors: if impact.drops_edge() {
                None
            } else {
                self.edge_tensors
            },
            hot_edge: if impact.drops_edge() {
                None
            } else {
                self.hot_edge
            },
            edge_mask: if impact.drops_edge() {
                None
            } else {
                self.edge_mask
            },
            masked_base: self.masked_base,
        }
    }

    /// The caches after a result, with the tensors that came with it.
    pub open spec fn after_result(
        self,
        tensor: Option<CachedTensor>,
        edges: Option<CachedTensor>,
    ) -> Caches {
        Caches {
            tensor: if tensor is Some {
                tensor
            } else {
                self.tensor
            },
            edge_tensors: if edges is Some {
                edges
            } else {
                self.edge_tensors
            },
            hot_edge: if edges is Some {
                None
            } else {
                self.hot_edge
            },
            edge_mask: if edges is Some {
                None
            } else {
                self.edge_mask
            },
            masked_base: None,
        }
    }

    /// Bytes that the tensors take together.
    pub open spec fn bytes(self) -> int {
        (match self.tensor {
            Some(t) => t.size as int,
            None => 0,
        }) + (match self.edge_tensors {
            Some(t) => t.size as int,
            None => 0,
        })
    }

    /// Drops the caches that an impact makes stale.
    pub fn drop_stale(&mut self, impact: CacheImpact)
        ensures
            *final(self) == old(self).after(impact),
    {
        match impact {
            CacheImpact::Nothing => {},
            CacheImpact::EdgeCache => {
                self.edge_tensors = None;
                self.hot_edge = None;
                self.edge_mask = None;
            },
            CacheImpact::SegCache => {
                self.tensor = None;
            },
            CacheImpact::Both => {
                self.tensor = None;
                self.edge_tensors = None;
                self.hot_edge = None;
                self.edge_mask = None;
            },
        }
    }

    /// Takes the tensors that came with a result.
    fn take_result(&mut self, tensor: Option<CachedTensor>, edges: Option<CachedTensor>)
        ensures
            *final(self) == old(self).after_result(tensor, edges),
    {
        if tensor.is_some() {
            self.tensor = tensor;
        }
        if edges.is_some() {
            self.edge_tensors = edges;
            self.hot_edge = None;
            self.edge_mask = None;
        }
        self.masked_base = None;
    }
}

/// One picture of a batch.
pub struct BatchItem {
    pub id: u64,
    pub filename: String,
    pub source: ImageSource,
    pub dimensions: (u32, u32),
    pub source_rgba: Option<Arc<Pixmap>>,
    pub result_rgba: Option<Arc<Pixmap>>,
    pub drawn: Drawn,
    /// Earlier results, newest last.
    pub history: VecDeque<HistoryEntry>,
    /// Results that were undone, newest last.
    pub redo_stack: VecDeque<HistoryEntry>,
    pub status: BatchStatus,
    pub selected: bool,
    pub settings: ItemSettings,
    /// Recipe of the result.
    pub applied_recipe: Option<ProcessingRecipe>,
    pub caches: Caches,
    /// Preset applied last.
    pub applied_preset: String,
    pub preset_undo_stack: VecDeque<PresetSnapshot>,
    pub preset_redo_stack: VecDeque<PresetSnapshot>,
    pub mask_correction: Option<Arc<MaskCorrection>>,
    pub stroke_undo_stack: VecDeque<Option<Arc<MaskCorrection>>>,
    pub stroke_redo_stack: VecDeque<Option<Arc<MaskCorrection>>>,
    pub bg_image: Option<BgImage>,
}

/// The strokes of an item: its correction and the two stacks.
pub struct Strokes {
    pub current: Option<Arc<MaskCorrection>>,
    pub undo: Seq<Option<Arc<MaskCorrection>>>,
    pub redo: Seq<Option<Arc<MaskCorrection>>>,
}

impl Strokes {
    /// No more strokes are kept than can be undone.
    pub open spec fn bounded(self) -> bool {
        self.undo.len() + self.redo.len() <= STROKE_HISTORY_DEPTH
    }

    /// After a new correction replaced the current one.
    pub open spec fn committed(self, c: Option<Arc<MaskCorrection>>) -> Strokes {
        Strokes {
            current: c,
            undo: newest(self.undo.push(self.current), STROKE_HISTORY_DEPTH as int),
            redo: Seq::empty(),
        }
    }

    /// After undoing a stroke.
    pub open spec fn undone(self) -> Strokes {
        if self.undo.len() == 0 {
            self
        } else {
            Strokes {
                current: self.undo.last(),
                undo: self.undo.drop_last(),
                redo: newest(self.redo.push(self.current), STROKE_HISTORY_DEPTH as int),
            }
        }
    }

    /// After redoing a stroke.
    pub open spec fn redone(self) -> Strokes {
        if self.redo.len() == 0 {
            self
        } else {
            Strokes {
                current: self.redo.last(),
                redo: self.redo.drop_last(),
                undo: newest(self.undo.push(self.current), STROKE_HISTORY_DEPTH as int),
            }
        }
    }
}

/// The number of strokes kept stays within bounds whatever is done.
pub proof fn strokes_stay_bounded(s: Strokes, c: Option<Arc<MaskCorrection>>)
    requires
        s.bounded(),
    ensures
        s.committed(c).bounded(),
        s.undone().bounded(),
        s.redone().bounded(),
{
}

/// Redoing takes back an undo, and undoing takes back a redo: the correction and
/// both stacks are as before.
pub proof fn stroke_undo_and_redo_are_inverse(s: Strokes)
    requires
        s.bounded(),
    ensures
        s.undo.len() > 0 ==> s.undone().redone() == s,
        s.redo.len() > 0 ==> s.redone().undone() == s,
{
    if s.undo.len() > 0 {
        let t = s.undone();
        assert(t.redo.last() == s.current);
        assert(t.redo.drop_last() =~= s.redo);
        assert(t.undo.push(t.current) =~= s.undo);
    }
    if s.redo.len() > 0 {
        let t = s.redone();
        assert(t.undo.last() == s.current);
        assert(t.undo.drop_last() =~= s.undo);
        assert(t.redo.push(t.current) =~= s.redo);
    }
}

/// A committed correction can be undone: the one before it is back.
pub proof fn committed_stroke_can_be_undone(s: Strokes, c: Option<Arc<MaskCorrection>>)
    requires
        s.bounded(),
    ensures
        s.committed(c).undone().current == s.current,
        s.committed(c).undone().redone().current == c,
{
    assert(s.committed(c).undo.last() == s.current);
    let t = s.committed(c).undone();
    assert(t.redo.last() == c);
}

/// Whether every picture kept as it is fills its size.
pub open spec fn stack_wf(s: Seq<HistoryEntry>) -> bool {
    forall|i: int| 0 <= i < s.len() ==> (#[trigger] s[i]).slot.wf()
}

impl BatchItem {
    /// Whether every picture of the item fills its size.
    pub open spec fn wf(&self) -> bool {
        &&& self.source_rgba matches Some(p) ==> p.wf()
        &&& self.result_rgba matches Some(p) ==> p.wf()
        &&& stack_wf(self.history@)
        &&& stack_wf(self.redo_stack@)
    }

    /// The strokes of the item.
    pub open spec fn strokes(&self) -> Strokes {
        Strokes {
            current: self.mask_correction,
            undo: self.stroke_undo_stack@,
            redo: self.stroke_redo_stack@,
        }
    }

    /// Whether everything but the strokes is as in another state. The fingerprint
    /// in the settings goes with the correction.
    pub open spec fn only_strokes_differ(&self, other: &BatchItem) -> bool {
        *self == (BatchItem {
            mask_correction: self.mask_correction,
            stroke_undo_stack: self.stroke_undo_stack,
            stroke_redo_stack: self.stroke_redo_stack,
            settings: ItemSettings { correction_hash: self.settings.correction_hash, ..other.settings },
            ..*other
        })
    }

    /// Drops all caches of the edge stage together.
    pub fn invalidate_edge_cache(&mut self)
        ensures
            *final(self) == old(self).after_impact(CacheImpact::EdgeCache),
    {
        self.caches.drop_stale(CacheImpact::EdgeCache);
    }

    /// The correction that a stroke of the given size is merged into. One of
    /// another size belongs to another model and is not merged.
    pub fn merge_base(&self, width: u16, height: u16) -> (r: Option<&Arc<MaskCorrection>>)
        ensures
            match self.mask_correction {
                Some(c) => if c.width == width && c.height == height {
                    r matches Some(b) && *b == c
                } else {
                    r is None
                },
                None => r is None,
            },
    {
        match &self.mask_correction {
            Some(c) => {
                if c.width == width && c.height == height {
                    Some(c)
                } else {
                    None
                }
            },
            None => None,
        }
    }

    /// Replaces the correction by one that a stroke was merged into. The one
    /// before can be undone to; what was undone before is forgotten.
    pub fn commit_correction(&mut self, merged: MaskCorrection)
        ensures
            final(self).strokes() == old(self).strokes().committed(Some(Arc::new(merged))),
            final(self).settings.correction_hash == Some(merged.hash),
            final(self).only_strokes_differ(old(self)),
    {
        let pre = share_opt(&self.mask_correction);
        push_bounded(&mut self.stroke_undo_stack, pre, STROKE_HISTORY_DEPTH);
        self.stroke_redo_stack.clear();
        self.settings.correction_hash = Some(merged.hash);
        self.mask_correction = Some(Arc::new(merged));
    }

    /// Drops the correction. That can be undone; without a correction nothing is
    /// remembered.
    pub fn clear_correction(&mut self)
        ensures
            final(self).strokes() == if old(self).mask_correction is Some {
                old(self).strokes().committed(None)
            } else {
                old(self).strokes()
            },
            final(self).settings.correction_hash is None,
            final(self).only_strokes_differ(old(self)),
    {
        if self.mask_correction.is_some() {
            let pre = share_opt(&self.mask_correction);
            push_bounded(&mut self.stroke_undo_stack, pre, STROKE_HISTORY_DEPTH);
            self.stroke_redo_stack.clear();
        }
        self.mask_correction = None;
        self.settings.correction_hash = None;
    }

    /// Undoes the last stroke. Says whether there was one.
    pub fn undo_stroke(&mut self) -> (changed: bool)
        ensures
            changed == (old(self).stroke_undo_stack@.len() > 0),
            !changed ==> final(self).settings == old(self).settings,
            changed ==> final(self).settings.correction_hash == hash_of(final(self).mask_correction),
            final(self).strokes() == old(self).strokes().undone(),
            final(self).only_strokes_differ(old(self)),
    {
        match self.stroke_undo_stack.pop_back() {
            None => {
                false
            },
            Some(prev) => {
                let current = share_opt(&self.mask_correction);
                push_bounded(&mut self.stroke_redo_stack, current, STROKE_HISTORY_DEPTH);
                self.set_correction(prev);
                proof {
                    let u = old(self).stroke_undo_stack@;
                    assert(u.subrange(0, u.len() - 1) =~= u.drop_last());
                }
                true
            },
        }
    }

    /// Redoes the stroke that was undone last. Says whether there was one.
    pub fn redo_stroke(&mut self) -> (changed: bool)
        ensures
            changed == (old(self).stroke_redo_stack@.len() > 0),
            !changed ==> final(self).settings == old(self).settings,
            changed ==> final(self).settings.correction_hash == hash_of(final(self).mask_correction),
            final(self).strokes() == old(self).strokes().redone(),
            final(self).only_strokes_differ(old(self)),
    {
        match self.stroke_redo_stack.pop_back() {
            None => {
                false
            },
            Some(next) => {
                let current = share_opt(&self.mask_correction);
                push_bounded(&mut self.stroke_undo_stack, current, STROKE_HISTORY_DEPTH);
                self.set_correction(next);
                proof {
                    let u = old(self).stroke_redo_stack@;
                    assert(u.subrange(0, u.len() - 1) =~= u.drop_last());
                }
                true
            },
        }
    }

    /// Whether a stroke can be undone.
    pub fn has_stroke_undo(&self) -> (r: bool)
        ensures
            r == (self.stroke_undo_stack@.len() > 0),
    {
        self.stroke_undo_stack.len() > 0
    }

    /// Whether a stroke can be redone.
    pub fn has_stroke_redo(&self) -> (r: bool)
        ensures
            r == (self.stroke_redo_stack@.len() > 0),
    {
        self.stroke_redo_stack.len() > 0
    }

    /// Sets the correction and its fingerprint together.
    fn set_correction(&mut self, c: Option<Arc<MaskCorrection>>)
        ensures
            *final(self) == (BatchItem {
                mask_correction: c,
                settings: ItemSettings { correction_hash: hash_of(c), ..old(self).settings },
                ..*old(self)
            }),
    {
        self.settings.correction_hash = match &c {
            Some(m) => Some(m.hash),
            None => None,
        };
        self.mask_correction = c;
    }

    /// The item with the caches dropped that an impact makes stale.
    pub open spec fn after_impact(&self, impact: CacheImpact) -> BatchItem {
        BatchItem { caches: self.caches.after(impact), ..*self }
    }

    /// Drops the caches that an impact makes stale.
    pub fn apply_cache_impact(&mut self, impact: CacheImpact)
        ensures
            *final(self) == old(self).after_impact(impact),
    {
        self.caches.drop_stale(impact);
    }

    /// The item with everything forgotten that was drawn from its result. The
    /// segmentation stays: it belongs to the source and the model.
    pub open spec fn with_result_caches_reset(&self) -> BatchItem {
        BatchItem {
            drawn: Drawn {
                result_texture: false,
                thumb_texture: false,
                thumb_pending: false,
                source_tex_pending: false,
                result_tex_pending: false,
                decode_pending: false,
                ..self.drawn
            },
            ..*self
        }
    }

    /// Forgets everything that was drawn from the result.
    pub fn reset_result_caches(&mut self)
        ensures
            *final(self) == old(self).with_result_caches_reset(),
    {
        self.drawn = Drawn {
            source_dyn: self.drawn.source_dyn,
            source_texture: self.drawn.source_texture,
            thumb_texture: false,
            thumb_pending: false,
            result_texture: false,
            source_tex_pending: false,
            result_tex_pending: false,
            decode_pending: false,
            bg_image_texture: self.drawn.bg_image_texture,
        };
    }

    /// Takes a finished result. Tensors that came with it replace the cached
    /// ones; a rerun that brought none keeps them. A failure clears the recipe
    /// and the tensors, so that a retry starts afresh. Returns the provider that
    /// inferred the result, if one did.
    pub fn apply_tier_result(
        &mut self,
        result: Result<ProcessResult, String>,
        tensor_cache: Option<CachedTensor>,
        edge_cache: Option<CachedTensor>,
        recipe_snapshot: ProcessingRecipe,
    ) -> (provider: Option<String>)
        ensures
            match result {
                Ok(pr) => {
                    &&& *final(self) == (BatchItem {
                        result_rgba: Some(Arc::new(pr.rgba_image)),
                        status: BatchStatus::Done,
                        applied_recipe: Some(recipe_snapshot),
                        caches: old(self).caches.after_result(tensor_cache, edge_cache),
                        ..old(self).with_result_caches_reset()
                    })
                    &&& provider == if pr.active_provider@.len() == 0 {
                        None
                    } else {
                        Some(pr.active_provider)
                    }
                },
                Err(e) => {
                    &&& provider is None
                    &&& *final(self) == (BatchItem {
                        status: BatchStatus::Error(e),
                        applied_recipe: None,
                        ..old(self).after_impact(CacheImpact::Both)
                    })
                },
            },
    {
        match result {
            Ok(pr) => {
                self.reset_result_caches();
                self.result_rgba = Some(Arc::new(pr.rgba_image));
                self.status = BatchStatus::Done;
                self.applied_recipe = Some(recipe_snapshot);
                self.caches.take_result(tensor_cache, edge_cache);
                if pr.active_provider.as_str().is_empty() {
                    None
                } else {
                    Some(pr.active_provider)
                }
            },
            Err(e) => {
                self.status = BatchStatus::Error(e);
                self.caches.drop_stale(CacheImpact::Both);
                self.applied_recipe = None;
                None
            },
        }
    }

    /// Bytes that the cached tensors take together.
    pub fn cache_size(&self) -> (r: usize)
        requires
            self.caches.bytes() <= usize::MAX,
        ensures
            r == self.caches.bytes(),
    {
        let seg: usize = match self.caches.tensor {
            Some(t) => t.size,
            None => 0,
        };
        let edge: usize = match self.caches.edge_tensors {
            Some(t) => t.size,
            None => 0,
        };
        seg + edge
    }

    /// A picture that was just added.
    pub fn new(
        id: u64,
        filename: String,
        source: ImageSource,
        dimensions: (u32, u32),
        settings: ItemSettings,
        applied_preset: String,
    ) -> (r: BatchItem)
        ensures
            r.id == id,
            r.filename == filename,
            r.source == source,
            r.dimensions == dimensions,
            r.settings == settings,
            r.applied_preset == applied_preset,
            r.fresh(),
    {
        BatchItem {
            id,
            filename,
            source,
            dimensions,
            source_rgba: None,
            result_rgba: None,
            drawn: Drawn {
                source_dyn: false,
                source_texture: false,
                thumb_texture: false,
                thumb_pending: false,
                result_texture: false,
                source_tex_pending: false,
                result_tex_pending: false,
                decode_pending: false,
                bg_image_texture: false,
            },
            history: VecDeque::new(),
            redo_stack: VecDeque::new(),
            status: BatchStatus::Pending,
            selected: false,
            settings,
            applied_recipe: None,
            caches: Caches {
                tensor: None,
                edge_tensors: None,
                hot_edge: None,
                edge_mask: None,
                masked_base: None,
            },
            applied_preset,
            preset_undo_stack: VecDeque::new(),
            preset_redo_stack: VecDeque::new(),
            mask_correction: None,
            stroke_undo_stack: VecDeque::new(),
            stroke_redo_stack: VecDeque::new(),
            bg_image: None,
        }
    }

    /// Whether nothing has been done with a picture yet.
    pub open spec fn fresh(&self) -> bool {
        &&& self.status is Pending
        &&& !self.selected
        &&& self.source_rgba is None
        &&& self.result_rgba is None
        &&& self.drawn == nothing_drawn()
        &&& self.history@.len() == 0
        &&& self.redo_stack@.len() == 0
        &&& self.applied_recipe is None
        &&& self.caches == (Caches {
            tensor: None,
            edge_tensors: None,
            hot_edge: None,
            edge_mask: None,
            masked_base: None,
        })
        &&& self.preset_undo_stack@.len() == 0
        &&& self.preset_redo_stack@.len() == 0
        &&& self.strokes() == (Strokes { current: None, undo: Seq::empty(), redo: Seq::empty() })
        &&& self.bg_image is None
    }

    /// Puts a picture behind the cut-out. Its fingerprint goes into the settings.
    pub fn set_bg_image(&mut self, image: Arc<RawImage>, source_path: Option<String>)
        ensures
            final(self).bg_image matches Some(b) && b.image == image && b.source_path == source_path
                && final(self).settings == (ItemSettings {
                bg_image_hash: Some(b.hash),
                ..old(self).settings
            }) && b.hash == fingerprint(*image),
            *final(self) == (BatchItem {
                bg_image: final(self).bg_image,
                drawn: Drawn { bg_image_texture: false, ..old(self).drawn },
                settings: final(self).settings,
                ..*old(self)
            }),
    {
        let hash: u64 = bg_image_content_hash(&image);
        self.bg_image = Some(BgImage { source_path, image, hash });
        self.drawn.bg_image_texture = false;
        self.settings.bg_image_hash = Some(hash);
    }

    /// Takes the background picture away, with its fingerprint.
    pub fn clear_bg_image(&mut self)
        ensures
            *final(self) == (BatchItem {
                bg_image: None,
                drawn: Drawn { bg_image_texture: false, ..old(self).drawn },
                settings: ItemSettings { bg_image_hash: None, ..old(self).settings },
                ..*old(self)
            }),
    {
        self.bg_image = None;
        self.drawn.bg_image_texture = false;
        self.settings.bg_image_hash = None;
    }

    /// What is put behind the cut-out when it is saved, copied or dragged out: a
    /// picture wins over a colour.
    pub fn bake_export_bg(&self) -> (r: Background)
        ensures
            r == if self.bg_image is Some {
                Background::Picture
            } else {
                match strip_alpha(self.settings.bg) {
                    Some(rgb) => Background::Colour { rgb },
                    None => Background::Transparent,
                }
            },
    {
        background(self.bg_image.is_some(), self.settings.bg_rgb())
    }
}

/// A bounded stack keeps the newest entries, in their order, and drops none without need.
pub proof fn newest_entries_are_kept<T>(s: Seq<T>, depth: int)
    requires
        depth >= 0,
    ensures
        newest(s, depth).len() == if s.len() < depth {
            s.len() as int
        } else {
            depth
        },
        forall|i: int|
            0 <= i < newest(s, depth).len() ==> #[trigger] newest(s, depth)[newest(s, depth).len()
                - 1 - i] == s[s.len() - 1 - i],
{
}

/// Caches that a change makes stale are gone, with everything derived from them, and no
/// other is.
pub proof fn stale_caches_go_together(c: Caches, impact: CacheImpact)
    ensures
        impact.drops_seg() ==> c.after(impact).tensor is None,
        !impact.drops_seg() ==> c.after(impact).tensor == c.tensor,
        impact.drops_edge() ==> {
            &&& c.after(impact).edge_tensors is None
            &&& c.after(impact).hot_edge is None
            &&& c.after(impact).edge_mask is None
        },
        !impact.drops_edge() ==> {
            &&& c.after(impact).edge_tensors == c.edge_tensors
            &&& c.after(impact).hot_edge == c.hot_edge
            &&& c.after(impact).edge_mask == c.edge_mask
        },
        c.after(impact).masked_base == c.masked_base,
        c.after(impact).bytes() <= c.bytes(),
{
}

/// A new stroke can be undone to what was there before it, and forgets what was undone.
pub proof fn strokes_follow_each_other(s: Strokes, c: Option<Arc<MaskCorrection>>)
    ensures
        s.committed(c).current == c,
        s.committed(c).undo.len() > 0 && s.committed(c).undo.last() == s.current,
        s.committed(c).redo.len() == 0,
        s.undo.len() > 0 ==> s.undone().current == s.undo.last() && s.undone().redo.len() > 0
            && s.undone().redo.last() == s.current,
        s.undo.len() == 0 ==> s.undone() == s,
        s.redo.len() > 0 ==> s.redone().current == s.redo.last(),
        s.redo.len() == 0 ==> s.redone() == s,
{
}

/// A packed picture is the picture: whichever way it is kept, the same one comes back.
pub proof fn packed_pictures_come_back(slot: HistorySlot, p: Picture, q: Picture)
    requires
        slot.holds(p),
        slot.holds(q),
    ensures
        p == q,
        !(slot is OnDisk),
        forall|file: Option<Seq<u8>>| #[trigger] slot.picture(file) == Some(p),
{
}

/// What a picture is taken to be is its size and all its bytes.
pub proof fn pictures_are_their_pixels(p: Pixmap, q: Pixmap)
    ensures
        p@.width == p.width && p@.height == p.height && p@.bytes == p.data@,
        p@ == q@ ==> p.width == q.width && p.height == q.height && p.data@ == q.data@,
        p.wf() <==> p.data@.len() >= 4 * (p.width as int * p.height as int),
{
}

/// Tensors that came with a result replace the old ones; new edges make everything
/// that was built from the old ones stale, and the cut-out built from the old result is
/// dropped in any case.
pub proof fn new_tensors_replace_old_ones(
    c: Caches,
    tensor: Option<CachedTensor>,
    edges: Option<CachedTensor>,
)
    ensures
        ({
            let r = c.after_result(tensor, edges);
            &&& tensor is Some ==> r.tensor == tensor
            &&& tensor is None ==> r.tensor == c.tensor
            &&& edges is Some ==> r.edge_tensors == edges && r.hot_edge is None && r.edge_mask
                is None
            &&& edges is None ==> r.edge_tensors == c.edge_tensors && r.hot_edge == c.hot_edge
                && r.edge_mask == c.edge_mask
            &&& r.masked_base is None
        }),
{
}

/// Forgetting what was drawn from a result keeps the result itself, the tensors, the
/// history and the texture of the source.
pub proof fn forgetting_drawings_keeps_the_item(item: BatchItem)
    ensures
        ({
            let r = item.with_result_caches_reset();
            &&& !r.drawn.result_texture && !r.drawn.result_tex_pending
            &&& !r.drawn.thumb_texture && !r.drawn.thumb_pending
            &&& r.drawn.source_texture == item.drawn.source_texture
            &&& r.drawn.bg_image_texture == item.drawn.bg_image_texture
            &&& r.caches == item.caches
            &&& r.result_rgba == item.result_rgba
            &&& r.history == item.history
            &&& r.settings == item.settings
            &&& r.status == item.status
        }),
{
}

/// A new picture waits, unchecked, with nothing made of it and nothing to undo.
pub proof fn new_pictures_have_no_past(item: BatchItem)
    requires
        item.fresh(),
    ensures
        item.status is Pending && !item.selected,
        item.source_rgba is None && item.result_rgba is None && item.applied_recipe is None,
        item.history@.len() == 0 && item.redo_stack@.len() == 0,
        item.preset_undo_stack@.len() == 0 && item.preset_redo_stack@.len() == 0,
        item.stroke_undo_stack@.len() == 0 && item.stroke_redo_stack@.len() == 0,
        item.mask_correction is None && item.bg_image is None,
        item.caches.tensor is None && item.caches.edge_tensors is None,
        !item.drawn.source_texture && !item.drawn.result_texture && !item.drawn.decode_pending,
{
    assert(item.strokes().undo.len() == 0 && item.strokes().redo.len() == 0);
    assert(item.strokes().current is None);
}

} // verus!
