//! One frame of the window: what the threads in the background report is stored, the
//! viewed item is drawn anew where it has to be, and files from the queue come in.
use vstd::prelude::*;
use std::sync::Arc;
use crate::app_dispatch::{all_wf, place_is_first};
use crate::app_import::{
    add_loaded_files, after_file_loads, grown_by_all, loaded_pictures, Imported, LoadedFile,
    NewItem, FILE_LOAD_DRAIN_PER_FRAME,
};
use crate::app_results::{
    filter_results_arrived, some_recoloured, with_recoloured, Recoloured,
};
use crate::app_toolbar::{apply_inpaint_result, stroke_stored};
use crate::app_view::{
    decode_errors, decodes_arrived, is_save_error, some_source_stored, sync_selected_batch_textures,
    textures_arrived, view_synced, with_sources, with_textures, DecodedSource, ReadyTexture,
    ViewSync,
};
use crate::batch_manager::BatchManager;
use crate::item::BatchItem;
use crate::processor::{cancelled_items, latest_results, shown_errors, InpaintResult, Processor};
use crate::text::has_part;
use crate::wholeness::{
    recoloured_pictures_keep_a_batch_whole, sources_keep_a_batch_whole,
    textures_keep_a_batch_whole,
};

verus! {

/// What came in from the background since the last frame.
pub struct Arrivals {
    pub decoded: Vec<DecodedSource>,
    pub textures: Vec<ReadyTexture>,
    pub recoloured: Vec<Recoloured>,
    /// Messages on saves.
    pub saved: Vec<String>,
    /// Files from the queue, at most as many as are taken in within one frame.
    pub files: Vec<LoadedFile>,
}

impl Arrivals {
    /// Whether the pictures that came in are whole, and no more files came than are
    /// taken in within one frame.
    pub open spec fn wf(self) -> bool {
        &&& forall|k: int|
            0 <= k < self.decoded@.len() ==> ((#[trigger] self.decoded@[k]).result matches Ok(p)
                ==> p.wf())
        &&& forall|k: int|
            0 <= k < self.recoloured@.len() ==> ((#[trigger] self.recoloured@[k]).result matches Ok(
                p,
            ) ==> p.wf())
        &&& self.files@.len() <= FILE_LOAD_DRAIN_PER_FRAME
    }
}

/// What a frame did with what came in.
pub struct FrameWork {
    /// A source was decoded: zoom and position start over.
    pub decoded: bool,
    /// What the user is told of sources that could not be decoded.
    pub decode_errors: Vec<String>,
    /// Drawing the viewed item after a source was decoded.
    pub after_decode: Option<ViewSync>,
    /// Drawing the viewed item after its texture came.
    pub after_texture: Option<ViewSync>,
    /// A new result came, so results are told apart by the next number.
    pub new_result: bool,
    /// For each message on a save, whether it is an error.
    pub save_errors: Vec<bool>,
    pub imported: Imported,
    /// Drawing the item that a single file from the queue brought into view.
    pub after_import: Option<ViewSync>,
}

/// What the file of the newest history entry of the viewed item holds.
pub open spec fn viewed_file(batch: BatchManager, files: Seq<Option<Vec<u8>>>) -> Option<Seq<u8>> {
    match batch.viewed_index() {
        Some(v) => if v < files.len() {
            match files[v as int] {
                Some(f) => Some(f@),
                None => None,
            }
        } else {
            None
        },
        None => None,
    }
}

/// Whether the viewed item was drawn anew, where it had to be.
pub open spec fn synced_if(
    due: bool,
    a: BatchManager,
    b: BatchManager,
    files: Seq<Option<Vec<u8>>>,
    switch: u64,
    r: Option<ViewSync>,
) -> bool {
    if due {
        view_synced(a, b, viewed_file(a, files), switch, r)
    } else {
        b == a && r is None
    }
}

/// Draws the viewed item anew, where it has to be.
fn sync_if(
    due: bool,
    batch: &mut BatchManager,
    files: &Vec<Option<Vec<u8>>>,
    switch: u64,
) -> (r: Option<ViewSync>)
    requires
        all_wf(old(batch).items@),
    ensures
        all_wf(final(batch).items@),
        synced_if(due, *old(batch), *final(batch), files@, switch, r),
        final(batch).items@.len() == old(batch).items@.len(),
        final(batch).selected_index == old(batch).selected_index,
        final(batch).next_id == old(batch).next_id,
{
    if !due {
        return None;
    }
    let file = match batch.selected_idx_clamped() {
        Some(v) => if v < files.len() {
            files[v].as_ref()
        } else {
            None
        },
        None => None,
    };
    sync_selected_batch_textures(batch, file, switch)
}

/// Whether sources that came back were taken in.
pub open spec fn sources_came(
    a: BatchManager,
    b: BatchManager,
    arrived: Seq<DecodedSource>,
    any: bool,
    errors: Seq<String>,
) -> bool {
    &&& errors == decode_errors(a.items@, arrived, arrived.len() as int)
    &&& b.items@ == with_sources(a.items@, arrived, arrived.len() as int)
    &&& b.selected_index == a.selected_index
    &&& b.next_id == a.next_id
    &&& any == some_source_stored(a.items@, arrived, arrived.len() as int)
}

/// Whether ready textures were taken in. `any` says that one is of the viewed item.
pub open spec fn textures_came(
    a: BatchManager,
    b: BatchManager,
    arrived: Seq<ReadyTexture>,
    any: bool,
) -> bool {
    &&& b.items@ == with_textures(a.items@, arrived, arrived.len() as int)
    &&& b.selected_index == a.selected_index
    &&& b.next_id == a.next_id
    &&& any == exists|k: int|
        0 <= k < arrived.len() && a.viewed_id() == Some((#[trigger] arrived[k]).item_id)
}

/// Whether recoloured pictures were stored.
pub open spec fn recoloured_came(
    a: BatchManager,
    b: BatchManager,
    arrived: Seq<Recoloured>,
    any: bool,
) -> bool {
    &&& b.items@ == with_recoloured(a.items@, arrived, arrived.len() as int)
    &&& b.selected_index == a.selected_index
    &&& b.next_id == a.next_id
    &&& any == some_recoloured(a.items@, arrived, arrived.len() as int)
}

/// Whether files from the queue came in. One that came alone, with the queue empty
/// after it, brings the last item into view.
pub open spec fn files_came(
    a: BatchManager,
    b: BatchManager,
    files: Seq<LoadedFile>,
    auto_process: bool,
    new: NewItem,
    r: Imported,
) -> bool {
    let added = loaded_pictures(files, files.len() as int);
    &&& grown_by_all(a, b, added, new)
    &&& r.views_new == (files.len() == 1 && b.items@.len() > 0)
    &&& b.selected_index == if r.views_new {
        (b.items@.len() - 1) as usize
    } else {
        a.selected_index
    }
    &&& r.process_from == if auto_process && added.len() > 0 {
        Some(a.next_id)
    } else {
        None
    }
}

/// The number that tells the next result apart.
pub open spec fn switched(switch: u64, new_result: bool) -> u64 {
    if new_result {
        if switch == u64::MAX {
            0
        } else {
            (switch + 1) as u64
        }
    } else {
        switch
    }
}

/// Takes in files from the queue.
fn take_files(
    batch: &mut BatchManager,
    files: Vec<LoadedFile>,
    auto_process: bool,
    new: &NewItem,
) -> (r: Imported)
    requires
        all_wf(old(batch).items@),
        old(batch).next_id + files@.len() <= u64::MAX,
        files@.len() <= FILE_LOAD_DRAIN_PER_FRAME,
    ensures
        all_wf(final(batch).items@),
        files_came(*old(batch), *final(batch), files@, auto_process, *new, r),
{
    let floor: u64 = batch.next_id;
    let count: usize = files.len();
    add_loaded_files(batch, files, new);
    proof {
        let n = old(batch).items@.len() as int;
        assert forall|i: int| 0 <= i < batch.items@.len() implies (
        #[trigger] batch.items@[i]).wf() by {
            if i < n {
                assert(batch.items@.take(n)[i] == batch.items@[i]);
                assert(old(batch).items@[i].wf());
            } else {
                assert(batch.items@[n + (i - n)].fresh());
            }
        }
    }
    after_file_loads(batch, count, count < FILE_LOAD_DRAIN_PER_FRAME, floor, auto_process)
}

/// For each message on a save, whether it is an error.
fn classify_saves(saved: &Vec<String>) -> (r: Vec<bool>)
    ensures
        r@.len() == saved@.len(),
        forall|k: int|
            0 <= k < saved@.len() ==> #[trigger] r@[k] == has_part(saved@[k]@, "fail"@),
{
    let mut r: Vec<bool> = Vec::new();
    let mut k: usize = 0;
    while k < saved.len()
        invariant
            k <= saved@.len(),
            r@.len() == k,
            forall|j: int| 0 <= j < k ==> #[trigger] r@[j] == has_part(saved@[j]@, "fail"@),
        decreases saved@.len() - k,
    {
        r.push(is_save_error(saved[k].as_str()));
        k += 1;
    }
    r
}

/// Whether a frame dealt with what came in, in this order: decoded sources, ready
/// textures, recoloured pictures, files from the queue. The viewed item is drawn anew
/// after a decoded source, after a texture of its own, and when a file comes into
/// view.
pub open spec fn frame_done(
    a: BatchManager,
    b: BatchManager,
    got: Arrivals,
    files: Seq<Option<Vec<u8>>>,
    switch: u64,
    auto_process: bool,
    new: NewItem,
    r: FrameWork,
) -> bool {
    exists|
        decoded: BatchManager,
        shown: BatchManager,
        textured: BatchManager,
        drawn: BatchManager,
        coloured: BatchManager,
        grown: BatchManager,
        own: bool,
    |
        {
            &&& #[trigger] sources_came(
                a,
                decoded,
                got.decoded@,
                r.decoded,
                r.decode_errors@,
            )
            &&& #[trigger] synced_if(r.decoded, decoded, shown, files, switch, r.after_decode)
            &&& #[trigger] textures_came(shown, textured, got.textures@, own)
            &&& #[trigger] synced_if(own, textured, drawn, files, switch, r.after_texture)
            &&& #[trigger] recoloured_came(drawn, coloured, got.recoloured@, r.new_result)
            &&& #[trigger] files_came(
                coloured,
                grown,
                got.files@,
                auto_process,
                new,
                r.imported,
            )
            &&& synced_if(
                r.imported.views_new,
                grown,
                b,
                files,
                switched(switch, r.new_result),
                r.after_import,
            )
        }
}

/// Deals with what came in from the background since the last frame. `files` holds,
/// for each item, what the file of its newest history entry holds, and `switch`
/// tells successive results apart.
pub fn drain_background_channels(
    batch: &mut BatchManager,
    got: Arrivals,
    files: &Vec<Option<Vec<u8>>>,
    switch: u64,
    auto_process: bool,
    new: &NewItem,
) -> (r: FrameWork)
    requires
        all_wf(old(batch).items@),
        got.wf(),
        old(batch).next_id + got.files@.len() <= u64::MAX,
    ensures
        all_wf(final(batch).items@),
        frame_done(*old(batch), *final(batch), got, files@, switch, auto_process, *new, r),
        r.save_errors@.len() == got.saved@.len(),
        forall|k: int|
            0 <= k < got.saved@.len() ==> #[trigger] r.save_errors@[k] == has_part(
                got.saved@[k]@,
                "fail"@,
            ),
{
    let ghost came = got;
    proof {
        sources_keep_a_batch_whole(batch.items@, got.decoded@, got.decoded@.len() as int);
    }
    let decodes = decodes_arrived(batch, got.decoded);
    let decoded = decodes.any;
    let ghost after_sources = *batch;
    let after_decode = sync_if(decoded, batch, files, switch);
    let ghost shown = *batch;
    proof {
        textures_keep_a_batch_whole(batch.items@, got.textures@, got.textures@.len() as int);
    }
    let own = textures_arrived(batch, &got.textures);
    let ghost textured = *batch;
    let after_texture = sync_if(own, batch, files, switch);
    let ghost drawn = *batch;
    proof {
        recoloured_pictures_keep_a_batch_whole(
            batch.items@,
            got.recoloured@,
            got.recoloured@.len() as int,
        );
    }
    let new_result = filter_results_arrived(batch, got.recoloured);
    let ghost coloured = *batch;
    let save_errors = classify_saves(&got.saved);
    let imported = take_files(batch, got.files, auto_process, new);
    let ghost grown = *batch;
    let next: u64 = if new_result {
        switch.wrapping_add(1)
    } else {
        switch
    };
    let after_import = sync_if(imported.views_new, batch, files, next);
    let r = FrameWork {
        decoded,
        decode_errors: decodes.errors,
        after_decode,
        after_texture,
        new_result,
        save_errors,
        imported,
        after_import,
    };
    proof {
        assert(sources_came(
            *old(batch),
            after_sources,
            came.decoded@,
            r.decoded,
            r.decode_errors@,
        ));
        assert(synced_if(r.decoded, after_sources, shown, files@, switch, r.after_decode));
        assert(textures_came(shown, textured, came.textures@, own));
        assert(synced_if(own, textured, drawn, files@, switch, r.after_texture));
        assert(recoloured_came(drawn, coloured, came.recoloured@, r.new_result));
        assert(files_came(coloured, grown, came.files@, auto_process, *new, r.imported));
        assert(next == switched(switch, new_result));
        assert(synced_if(r.imported.views_new, grown, *batch, files@, next, r.after_import));
    }
    r
}

/// Whether the items of `b` are those of `a`, each with its id in its place.
pub open spec fn same_ids(a: Seq<BatchItem>, b: Seq<BatchItem>) -> bool {
    b.len() == a.len() && forall|i: int| 0 <= i < a.len() ==> (#[trigger] b[i]).id == a[i].id
}

proof fn sources_keep_ids(s: Seq<BatchItem>, arrived: Seq<DecodedSource>, n: int)
    ensures
        same_ids(s, with_sources(s, arrived, n)),
    decreases n,
{
    if n > 0 {
        sources_keep_ids(s, arrived, n - 1);
        place_is_first(with_sources(s, arrived, n - 1), arrived[n - 1].item_id);
    }
}

proof fn textures_keep_ids(s: Seq<BatchItem>, arrived: Seq<ReadyTexture>, n: int)
    ensures
        same_ids(s, with_textures(s, arrived, n)),
    decreases n,
{
    if n > 0 {
        textures_keep_ids(s, arrived, n - 1);
        place_is_first(with_textures(s, arrived, n - 1), arrived[n - 1].item_id);
    }
}

proof fn recoloured_pictures_keep_ids(s: Seq<BatchItem>, arrived: Seq<Recoloured>, n: int)
    ensures
        same_ids(s, with_recoloured(s, arrived, n)),
    decreases n,
{
    if n > 0 {
        recoloured_pictures_keep_ids(s, arrived, n - 1);
        place_is_first(with_recoloured(s, arrived, n - 1), arrived[n - 1].item_id);
    }
}

proof fn syncing_keeps_ids(
    due: bool,
    a: BatchManager,
    b: BatchManager,
    files: Seq<Option<Vec<u8>>>,
    switch: u64,
    r: Option<ViewSync>,
)
    requires
        synced_if(due, a, b, files, switch, r),
    ensures
        same_ids(a.items@, b.items@),
        b.next_id == a.next_id,
{
}

/// A frame keeps every item in its place, gives new ones fresh ids, and so keeps the
/// ids of a batch apart.
pub proof fn frames_keep_ids_unique(
    a: BatchManager,
    b: BatchManager,
    got: Arrivals,
    files: Seq<Option<Vec<u8>>>,
    switch: u64,
    auto_process: bool,
    new: NewItem,
    r: FrameWork,
)
    requires
        a.ids_unique(),
        frame_done(a, b, got, files, switch, auto_process, new, r),
    ensures
        b.ids_unique(),
        b.items@.len() >= a.items@.len(),
        forall|i: int| 0 <= i < a.items@.len() ==> (#[trigger] b.items@[i]).id == a.items@[i].id,
{
    let (decoded, shown, textured, drawn, coloured, grown, own) = choose|
        decoded: BatchManager,
        shown: BatchManager,
        textured: BatchManager,
        drawn: BatchManager,
        coloured: BatchManager,
        grown: BatchManager,
        own: bool,
    |
        {
            &&& #[trigger] sources_came(
                a,
                decoded,
                got.decoded@,
                r.decoded,
                r.decode_errors@,
            )
            &&& #[trigger] synced_if(r.decoded, decoded, shown, files, switch, r.after_decode)
            &&& #[trigger] textures_came(shown, textured, got.textures@, own)
            &&& #[trigger] synced_if(own, textured, drawn, files, switch, r.after_texture)
            &&& #[trigger] recoloured_came(drawn, coloured, got.recoloured@, r.new_result)
            &&& #[trigger] files_came(
                coloured,
                grown,
                got.files@,
                auto_process,
                new,
                r.imported,
            )
            &&& synced_if(
                r.imported.views_new,
                grown,
                b,
                files,
                switched(switch, r.new_result),
                r.after_import,
            )
        };
    sources_keep_ids(a.items@, got.decoded@, got.decoded@.len() as int);
    syncing_keeps_ids(r.decoded, decoded, shown, files, switch, r.after_decode);
    textures_keep_ids(shown.items@, got.textures@, got.textures@.len() as int);
    syncing_keeps_ids(own, textured, drawn, files, switch, r.after_texture);
    recoloured_pictures_keep_ids(drawn.items@, got.recoloured@, got.recoloured@.len() as int);
    let next = switched(switch, r.new_result);
    syncing_keeps_ids(r.imported.views_new, grown, b, files, next, r.after_import);
    let n = a.items@.len() as int;
    assert(same_ids(a.items@, coloured.items@));
    assert forall|i: int| 0 <= i < b.items@.len() implies (#[trigger] b.items@[i]).id == if i < n {
        a.items@[i].id
    } else {
        (a.next_id + (i - n)) as u64
    } by {
        assert(grown.items@[i].id == b.items@[i].id);
        if i < n {
            assert(grown.items@.take(n)[i] == grown.items@[i]);
            assert(coloured.items@[i].id == a.items@[i].id);
        } else {
            assert(grown.items@[n + (i - n)] == grown.items@[i]);
        }
    }
}

/// What the user is told of a cancelled stroke.
pub const ERASE_CANCELLED: &'static str = "Erase cancelled";

/// What became of the strokes that came back.
pub struct StrokesBack {
    /// Items whose stroke was cancelled.
    pub cancelled: Vec<u64>,
    /// Errors, as they are shown.
    pub errors: Vec<String>,
    /// Names of the textures that are prepared for the strokes that were handed on,
    /// in order; `None` for one whose item is gone.
    pub textures: Vec<Option<String>>,
}

/// Whether painted strokes were stored one after the other: `states` holds the batch
/// before the first of them and after each.
pub open spec fn strokes_stored(
    states: Seq<BatchManager>,
    strokes: Seq<InpaintResult>,
    switch: u64,
    textures: Seq<Option<String>>,
) -> bool {
    &&& states.len() == strokes.len() + 1
    &&& textures.len() == strokes.len()
    &&& forall|k: int|
        0 <= k < strokes.len() ==> stroke_stored(
            #[trigger] states[k],
            states[k + 1],
            strokes[k].item_id,
            Arc::new(strokes[k].rgba),
            switch,
            textures[k],
        )
}

/// Stores painted strokes one after the other. Returns the names of their textures.
pub fn store_strokes(batch: &mut BatchManager, strokes: Vec<InpaintResult>, switch: u64) -> (r: Vec<
    Option<String>,
>)
    ensures
        exists|states: Seq<BatchManager>|
            {
                &&& #[trigger] strokes_stored(states, strokes@, switch, r@)
                &&& states[0] == *old(batch)
                &&& states.last() == *final(batch)
            },
{
    let ghost all = strokes@;
    let ghost mut states: Seq<BatchManager> = seq![*batch];
    let mut rest = strokes;
    let mut r: Vec<Option<String>> = Vec::new();
    let n: usize = rest.len();
    let mut i: usize = 0;
    while i < n
        invariant
            i <= n,
            n == all.len(),
            rest@ == all.skip(i as int),
            states.len() == i + 1,
            states[0] == *old(batch),
            states.last() == *batch,
            r@.len() == i,
            forall|k: int|
                0 <= k < i ==> stroke_stored(
                    #[trigger] states[k],
                    states[k + 1],
                    all[k].item_id,
                    Arc::new(all[k].rgba),
                    switch,
                    r@[k],
                ),
        decreases n - i,
    {
        let s = rest.remove(0);
        assert(s == all[i as int]);
        assert(all.skip(i as int).remove(0) =~= all.skip(i as int + 1));
        let ghost before = states;
        let ghost named = r@;
        let name = apply_inpaint_result(batch, s.item_id, Arc::new(s.rgba), switch);
        r.push(name);
        proof {
            states = before.push(*batch);
            assert forall|k: int| 0 <= k < i + 1 implies stroke_stored(
                #[trigger] states[k],
                states[k + 1],
                all[k].item_id,
                Arc::new(all[k].rgba),
                switch,
                r@[k],
            ) by {
                assert(states[k] == before[k]);
                if k < i {
                    assert(states[k + 1] == before[k + 1]);
                    assert(r@[k] == named[k]);
                }
            }
        }
        i += 1;
    }
    assert(strokes_stored(states, all, switch, r@));
    r
}

/// Deals with strokes that came back: the latest of each item is stored, cancels and
/// errors are reported.
pub fn pump_inpaint_results(
    processor: &mut Processor,
    batch: &mut BatchManager,
    results: Vec<InpaintResult>,
    switch: u64,
) -> (r: StrokesBack)
    ensures
        final(processor).only_strokes_differ(old(processor)),
        final(processor).inpaint_latest_gen == old(processor).inpaint_latest_gen,
        final(processor).strokes_after(old(processor), results@),
        r.cancelled@ == cancelled_items(results@),
        r.errors@ == shown_errors(results@),
        exists|states: Seq<BatchManager>|
            {
                &&& #[trigger] strokes_stored(
                    states,
                    latest_results(results@, old(processor).inpaint_latest_gen@),
                    switch,
                    r.textures@,
                )
                &&& states[0] == *old(batch)
                &&& states.last() == *final(batch)
            },
{
    let drained = processor.drain_inpaint_results(results);
    let ghost latest = drained.committed@;
    let textures = store_strokes(batch, drained.committed, switch);
    let r = StrokesBack { cancelled: drained.cancelled, errors: drained.errors, textures };
    proof {
        let states = choose|states: Seq<BatchManager>|
            {
                &&& #[trigger] strokes_stored(states, latest, switch, r.textures@)
                &&& states[0] == *old(batch)
                &&& states.last() == *batch
            };
        assert(strokes_stored(states, latest, switch, r.textures@));
    }
    r
}

/// A new result gets a number other than the last one; without a new result the
/// number stays.
pub proof fn new_results_are_told_apart(switch: u64)
    ensures
        switched(switch, true) != switch,
        switched(switch, false) == switch,
        switch < u64::MAX ==> switched(switch, true) == switch + 1,
{
}

/// A file that comes alone is brought into view, as the last item; more of them, or
/// none, leave the view alone. New items are processed from the first of them on
/// where that is wanted.
pub proof fn lone_files_come_into_view(
    a: BatchManager,
    b: BatchManager,
    files: Seq<LoadedFile>,
    auto_process: bool,
    new: NewItem,
    r: Imported,
)
    requires
        files_came(a, b, files, auto_process, new, r),
    ensures
        files.len() != 1 ==> !r.views_new && b.selected_index == a.selected_index,
        files.len() == 1 && b.items@.len() > 0 ==> r.views_new && b.selected_index
            == b.items@.len() - 1,
        !auto_process ==> r.process_from is None,
        r.process_from matches Some(id) ==> id == a.next_id && b.items@.len() > a.items@.len(),
        auto_process && b.items@.len() > a.items@.len() ==> r.process_from == Some(a.next_id),
        forall|i: int| 0 <= i < a.items@.len() ==> #[trigger] b.items@[i] == a.items@[i],
{
    let n = a.items@.len() as int;
    assert(b.items@.len() == b.items.len());
    assert forall|i: int| 0 <= i < a.items@.len() implies #[trigger] b.items@[i] == a.items@[i] by {
        assert(b.items@.take(n)[i] == b.items@[i]);
    }
}

/// A frame in which nothing came in changes nothing: no item, nothing of the view, and
/// nothing is drawn or processed.
pub proof fn quiet_frames_change_nothing(
    a: BatchManager,
    b: BatchManager,
    got: Arrivals,
    files: Seq<Option<Vec<u8>>>,
    switch: u64,
    auto_process: bool,
    new: NewItem,
    r: FrameWork,
)
    requires
        got.decoded@.len() == 0,
        got.textures@.len() == 0,
        got.recoloured@.len() == 0,
        got.files@.len() == 0,
        frame_done(a, b, got, files, switch, auto_process, new, r),
    ensures
        b.items@ == a.items@,
        b.selected_index == a.selected_index,
        b.next_id == a.next_id,
        !r.decoded && r.decode_errors@.len() == 0,
        r.after_decode is None && r.after_texture is None && r.after_import is None,
        !r.new_result,
        r.imported.process_from is None,
{
    let (decoded, shown, textured, drawn, coloured, grown, own) = choose|
        decoded: BatchManager,
        shown: BatchManager,
        textured: BatchManager,
        drawn: BatchManager,
        coloured: BatchManager,
        grown: BatchManager,
        own: bool,
    |
        {
            &&& #[trigger] sources_came(a, decoded, got.decoded@, r.decoded, r.decode_errors@)
            &&& #[trigger] synced_if(r.decoded, decoded, shown, files, switch, r.after_decode)
            &&& #[trigger] textures_came(shown, textured, got.textures@, own)
            &&& #[trigger] synced_if(own, textured, drawn, files, switch, r.after_texture)
            &&& #[trigger] recoloured_came(drawn, coloured, got.recoloured@, r.new_result)
            &&& #[trigger] files_came(
                coloured,
                grown,
                got.files@,
                auto_process,
                new,
                r.imported,
            )
            &&& synced_if(
                r.imported.views_new,
                grown,
                b,
                files,
                switched(switch, r.new_result),
                r.after_import,
            )
        };
    assert(!r.decoded);
    assert(!own);
    assert(!r.new_result);
    assert(loaded_pictures(got.files@, 0).len() == 0);
    let n = coloured.items@.len() as int;
    assert(grown.items@.take(n) =~= grown.items@);
}

/// The viewed item is drawn with what its own file holds, where it has one.
pub proof fn views_read_their_own_file(batch: BatchManager, files: Seq<Option<Vec<u8>>>, i: int)
    requires
        0 <= i < files.len(),
        batch.viewed_index() is Some,
        batch.viewed_index()->0 == i,
    ensures
        files[i] is None ==> viewed_file(batch, files) is None,
        files[i] matches Some(f) ==> viewed_file(batch, files) == Some(f@),
{
}

} // verus!
