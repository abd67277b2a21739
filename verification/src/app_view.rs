//! What the window shows: its title, the viewed item and its pictures, the
//! keyboard, and the panels.
use vstd::prelude::*;
use crate::app_dispatch::{place_is_first, place_of};
use crate::batch_manager::{AppState, BatchManager};
use crate::history_disk::{decompress_from_ram, restore};
use crate::history_manager::{file_of, pushed};
use crate::item::{file_view, picture_view, BatchItem, BatchStatus, Drawn, HistoryEntry, HistorySlot};
use crate::pipeline::ModelId;
use crate::pixmap::{share, Pixmap};
use crate::processor::Processor;
use crate::text::{contains_text, decimal, has_part, join2, join3, same_text, to_decimal};
use std::sync::Arc;

verus! {

broadcast use vstd::std_specs::hash::group_hash_axioms;

/// What the window title says.
pub enum TitleState {
    Empty,
    Single(String),
    Batch(usize),
}

impl TitleState {
    /// Whether the title is the right one for a batch.
    pub open spec fn fits(&self, batch: BatchManager) -> bool {
        match *self {
            TitleState::Batch(n) => batch.items@.len() >= 2 && n == batch.items@.len(),
            TitleState::Single(name) => batch.items@.len() < 2 && batch.selected_index
                < batch.items@.len() && name@
                == batch.items@[batch.selected_index as int].filename@,
            TitleState::Empty => batch.items@.len() < 2 && batch.selected_index
                >= batch.items@.len(),
        }
    }

    /// The window title.
    pub open spec fn text(&self) -> Seq<char> {
        match *self {
            TitleState::Batch(n) => "Prunr \u{2014} "@ + decimal(n as nat) + " images"@,
            TitleState::Single(name) => "Prunr \u{2014} "@ + name@,
            TitleState::Empty => "Prunr"@,
        }
    }

    /// The window title.
    pub fn title(&self) -> (r: String)
        ensures
            r@ == self.text(),
    {
        match self {
            TitleState::Batch(n) => {
                let count = to_decimal(*n as u64);
                join3("Prunr \u{2014} ", count.as_str(), " images")
            },
            TitleState::Single(name) => join2("Prunr \u{2014} ", name.as_str()),
            TitleState::Empty => "Prunr".to_owned(),
        }
    }
}

/// The title that a batch calls for: its size, or the name of its only picture.
pub fn title_for(batch: &BatchManager) -> (r: TitleState)
    ensures
        r.fits(*batch),
{
    let count: usize = batch.items.len();
    if count >= 2 {
        return TitleState::Batch(count);
    }
    match batch.selected_item() {
        Some(item) => {
            TitleState::Single(item.filename.clone())
        },
        None => TitleState::Empty,
    }
}

/// Brings the window title up to date. Returns the new title, if it changes.
pub fn update_window_title(state: &mut TitleState, batch: &BatchManager) -> (r: Option<String>)
    ensures
        final(state).fits(*batch),
        match r {
            Some(title) => !old(state).fits(*batch) && title@ == final(state).text(),
            None => old(state).fits(*batch) && *final(state) == *old(state),
        },
{
    let count: usize = batch.items.len();
    let unchanged = match &*state {
        TitleState::Batch(n) => count >= 2 && *n == count,
        TitleState::Single(name) => count < 2 && match batch.selected_item() {
            Some(item) => same_text(name.as_str(), item.filename.as_str()),
            None => false,
        },
        TitleState::Empty => count < 2 && batch.selected_item().is_none(),
    };
    if unchanged {
        return None;
    }
    *state = title_for(batch);
    Some(state.title())
}

/// A batch has one right title.
pub proof fn one_title_fits(a: TitleState, b: TitleState, batch: BatchManager)
    requires
        a.fits(batch),
        b.fits(batch),
    ensures
        a.text() == b.text(),
{
}

/// Direction in which the batch is walked.
#[derive(Clone, Copy, Debug, PartialEq, Eq, Structural)]
pub enum NavDir {
    Prev,
    Next,
}

/// Position after a step through a batch of the given length; the ends meet.
pub open spec fn stepped(at: int, len: int, dir: NavDir) -> int {
    match dir {
        NavDir::Prev => if at == 0 {
            len - 1
        } else {
            at - 1
        },
        NavDir::Next => (at + 1) % len,
    }
}

/// Views the next or the previous item. Says whether there is one.
pub fn navigate_batch(batch: &mut BatchManager, dir: NavDir) -> (r: bool)
    requires
        old(batch).items@.len() > 0 ==> old(batch).selected_index < usize::MAX,
    ensures
        r == (old(batch).items@.len() > 0),
        !r ==> *final(batch) == *old(batch),
        r ==> *final(batch) == (BatchManager {
            selected_index: stepped(
                old(batch).selected_index as int,
                old(batch).items@.len() as int,
                dir,
            ) as usize,
            ..*old(batch)
        }),
{
    let len: usize = batch.items.len();
    if len == 0 {
        return false;
    }
    let at: usize = batch.selected_index;
    let next: usize = match dir {
        NavDir::Prev => if at == 0 {
            len - 1
        } else {
            at - 1
        },
        NavDir::Next => (at + 1) % len,
    };
    batch.selected_index = next;
    true
}

/// A step forth and a step back lead to where they began, and no step leaves the
/// batch.
pub proof fn steps_are_inverse(at: int, len: int)
    requires
        0 <= at < len,
    ensures
        stepped(stepped(at, len, NavDir::Next), len, NavDir::Prev) == at,
        stepped(stepped(at, len, NavDir::Prev), len, NavDir::Next) == at,
        0 <= stepped(at, len, NavDir::Next) < len,
        0 <= stepped(at, len, NavDir::Prev) < len,
{
    if at + 1 < len {
        assert((at + 1) % len == at + 1) by (nonlinear_arith)
            requires
                0 <= at + 1 < len,
        ;
    } else {
        assert((at + 1) % len == 0) by (nonlinear_arith)
            requires
                at + 1 == len,
                len > 0,
        ;
    }
    if at > 0 {
        assert(at % len == at) by (nonlinear_arith)
            requires
                0 <= at < len,
        ;
    } else {
        assert(len % len == 0) by (nonlinear_arith)
            requires
                len > 0,
        ;
    }
}

/// After the batch changed: the viewed position stays within it. Says whether the
/// viewed item is to be drawn anew.
pub fn sync_after_batch_change(batch: &mut BatchManager) -> (r: bool)
    ensures
        r == (old(batch).items@.len() > 0),
        *final(batch) == (BatchManager {
            selected_index: match old(batch).viewed_index() {
                Some(v) => v,
                None => 0,
            },
            ..*old(batch)
        }),
{
    match batch.selected_idx_clamped() {
        Some(v) => {
            batch.selected_index = v;
            true
        },
        None => {
            batch.selected_index = 0;
            false
        },
    }
}

/// Whether `b` is `a` with its result moved into the history, where it takes the
/// place of the newest entry; `dropped` is the file of that entry. Only a finished
/// item has its result moved.
pub open spec fn result_put_away(a: BatchItem, b: BatchItem, dropped: Option<String>) -> bool {
    if a.result_rgba is None || !(a.status is Done) {
        b == a && dropped is None
    } else {
        &&& b == (BatchItem {
            history: b.history,
            result_rgba: None,
            drawn: Drawn { result_texture: false, result_tex_pending: false, ..a.drawn },
            ..a
        })
        &&& if a.history@.len() > 0 {
            &&& pushed(a.history@.drop_last(), b.history@, a.result_rgba, a.applied_recipe)
            &&& dropped == file_of(a.history@.last().slot)
        } else {
            &&& pushed(a.history@, b.history@, a.result_rgba, a.applied_recipe)
            &&& dropped is None
        }
    }
}

/// Moves the result of a finished item into its history. Returns the file that is
/// no longer needed.
fn put_result_away(item: &mut BatchItem) -> (r: Option<String>)
    requires
        old(item).wf(),
    ensures
        final(item).wf(),
        result_put_away(*old(item), *final(item), r),
{
    match item.status {
        BatchStatus::Done => {},
        _ => {
            return None;
        },
    }
    match item.result_rgba.take() {
        None => None,
        Some(rgba) => {
            let entry = HistoryEntry::new(rgba, item.applied_recipe);
            let dropped = match item.history.pop_back() {
                Some(e) => e.cleanup(),
                None => None,
            };
            item.history.push_back(entry);
            item.drawn.result_texture = false;
            item.drawn.result_tex_pending = false;
            proof {
                let before = old(item).history@;
                if before.len() > 0 {
                    assert(item.history@.drop_last() =~= before.drop_last());
                } else {
                    assert(item.history@.drop_last() =~= before);
                }
            }
            dropped
        },
    }
}

/// Moves the results of all finished items but the viewed one into their
/// histories. For each item the file that it no longer needs is returned.
pub fn evict_result_rgba_for_background_items(items: &mut Vec<BatchItem>, selected_idx: usize) -> (r:
    Vec<Option<String>>)
    requires
        crate::app_dispatch::all_wf(old(items)@),
    ensures
        crate::app_dispatch::all_wf(final(items)@),
        final(items)@.len() == old(items)@.len(),
        r@.len() == old(items)@.len(),
        forall|i: int|
            0 <= i < old(items)@.len() ==> put_away_unless(
                i == selected_idx,
                old(items)@[i],
                #[trigger] final(items)@[i],
                r@[i],
            ),
{
    let ghost before = items@;
    let mut r: Vec<Option<String>> = Vec::new();
    let mut i: usize = 0;
    while i < items.len()
        invariant
            i <= items@.len(),
            items@.len() == before.len(),
            r@.len() == i,
            crate::app_dispatch::all_wf(items@),
            forall|j: int| i <= j < before.len() ==> items@[j] == before[j],
            forall|j: int|
                0 <= j < i ==> put_away_unless(
                    j == selected_idx,
                    before[j],
                    #[trigger] items@[j],
                    r@[j],
                ),
        decreases items@.len() - i,
    {
        assert(items@[i as int].wf());
        let ghost had = items@;
        let ghost files = r@;
        if i == selected_idx {
            r.push(None);
        } else {
            let dropped = put_result_away(&mut items[i]);
            r.push(dropped);
        }
        assert forall|j: int| 0 <= j < i + 1 implies put_away_unless(
            j == selected_idx,
            before[j],
            #[trigger] items@[j],
            r@[j],
        ) by {
            if j < i {
                assert(items@[j] == had[j]);
                assert(r@[j] == files[j]);
            }
        }
        i += 1;
    }
    r
}

/// Whether an item's result was moved into its history, unless the item is viewed.
pub open spec fn put_away_unless(
    viewed: bool,
    a: BatchItem,
    b: BatchItem,
    dropped: Option<String>,
) -> bool {
    if viewed {
        b == a && dropped is None
    } else {
        result_put_away(a, b, dropped)
    }
}

/// Whether `b` is `a` with its result taken from the newest entry of its history.
/// The entry stays. `file` is what the entry's file holds.
pub open spec fn result_brought_back(a: BatchItem, b: BatchItem, file: Option<Seq<u8>>) -> bool {
    if a.result_rgba is None && a.status is Done && a.history@.len() > 0 {
        &&& b == (BatchItem {
            result_rgba: b.result_rgba,
            applied_recipe: a.history@.last().recipe,
            ..a
        })
        &&& picture_view(b.result_rgba) == a.history@.last().slot.picture(file)
    } else {
        b == a
    }
}

/// The picture of a slot, which stays. `file` is what the slot's file holds.
fn peek(slot: &HistorySlot, file: Option<&Vec<u8>>) -> (r: Option<Arc<Pixmap>>)
    ensures
        picture_view(r) == slot.picture(file_view(file)),
        slot.wf() ==> (r matches Some(p) ==> p.wf()),
{
    match slot {
        HistorySlot::InMemory(p) => Some(share(p)),
        HistorySlot::Compressed(e) => match decompress_from_ram(e) {
            Ok(p) => Some(Arc::new(p)),
            Err(_) => None,
        },
        HistorySlot::OnDisk(_) => match file {
            Some(data) => match restore(data.as_slice()) {
                Ok(p) => Some(Arc::new(p)),
                Err(_) => None,
            },
            None => None,
        },
    }
}

/// Takes the result of an item whose result was moved into its history from there.
/// `file` is what the file of the newest entry holds, if it has one that can be
/// read.
pub fn restore_selected_result_from_history(item: &mut BatchItem, file: Option<&Vec<u8>>)
    requires
        old(item).wf(),
    ensures
        final(item).wf(),
        result_brought_back(*old(item), *final(item), file_view(file)),
{
    match item.status {
        BatchStatus::Done => {},
        _ => {
            return;
        },
    }
    if item.result_rgba.is_some() || item.history.len() == 0 {
        return;
    }
    let last: usize = item.history.len() - 1;
    let recipe = item.history[last].recipe;
    let restored = peek(&item.history[last].slot, file);
    item.result_rgba = restored;
    item.applied_recipe = recipe;
}

/// A result that was moved into the history comes back when the item is viewed
/// again, with the recipe it was made with.
pub proof fn put_away_results_come_back(
    a: BatchItem,
    b: BatchItem,
    c: BatchItem,
    dropped: Option<String>,
    file: Option<Seq<u8>>,
)
    requires
        a.status is Done,
        a.result_rgba is Some,
        result_put_away(a, b, dropped),
        result_brought_back(b, c, file),
    ensures
        picture_view(c.result_rgba) == picture_view(a.result_rgba),
        c.applied_recipe == a.applied_recipe,
{
}

/// Whether the source of the viewed item has to be decoded.
pub fn ensure_selected_source_decoded(item: &mut BatchItem) -> (r: bool)
    ensures
        r == (old(item).source_rgba is None && !old(item).drawn.decode_pending),
        *final(item) == (BatchItem {
            drawn: Drawn { decode_pending: r || old(item).drawn.decode_pending, ..old(item).drawn },
            ..*old(item)
        }),
{
    if item.source_rgba.is_some() || item.drawn.decode_pending {
        return false;
    }
    item.drawn.decode_pending = true;
    true
}

/// Names of the textures that are to be prepared.
pub struct TextureRequests {
    pub source: Option<String>,
    pub result: Option<String>,
}

/// Asks for the textures that an item lacks and for which there are pixels.
/// `switch` tells successive results apart.
pub fn request_selected_textures(item: &mut BatchItem, switch: u64) -> (r: TextureRequests)
    ensures
        textures_requested(*old(item), *final(item), switch, r),
{
    let id = to_decimal(item.id);
    let mut r = TextureRequests { source: None, result: None };
    if !item.drawn.source_texture && !item.drawn.source_tex_pending && item.source_rgba.is_some() {
        item.drawn.source_tex_pending = true;
        r.source = Some(join2("source_", id.as_str()));
    }
    if !item.drawn.result_texture && !item.drawn.result_tex_pending && item.result_rgba.is_some() {
        item.drawn.result_tex_pending = true;
        let n = to_decimal(switch);
        let head = join3("result_", id.as_str(), "_");
        r.result = Some(join2(head.as_str(), n.as_str()));
    }
    r
}

/// What drawing the viewed item takes.
pub struct ViewSync {
    pub position: usize,
    /// For each item, the history file that it no longer needs.
    pub delete: Vec<Option<String>>,
    /// Whether the source is to be decoded.
    pub decode: bool,
    pub textures: TextureRequests,
}

/// Whether the textures that an item lacks are asked for.
pub open spec fn textures_requested(
    a: BatchItem,
    b: BatchItem,
    switch: u64,
    r: TextureRequests,
) -> bool {
    let d = a.drawn;
    let source = !d.source_texture && !d.source_tex_pending && a.source_rgba is Some;
    let result = !d.result_texture && !d.result_tex_pending && a.result_rgba is Some;
    &&& b == (BatchItem {
        drawn: Drawn {
            source_tex_pending: source || d.source_tex_pending,
            result_tex_pending: result || d.result_tex_pending,
            ..d
        },
        ..a
    })
    &&& crate::app_process::shown(r.source) == if source {
        Some("source_"@ + decimal(a.id as nat))
    } else {
        None
    }
    &&& crate::app_process::shown(r.result) == if result {
        Some("result_"@ + decimal(a.id as nat) + "_"@ + decimal(switch as nat))
    } else {
        None
    }
}

/// Whether an item is drawn: `b` is `a` with its result taken from its history
/// where it was put away, `decode` says that its source is decoded, and `r` names
/// the textures that are prepared.
pub open spec fn drawn_as(
    a: BatchItem,
    b: BatchItem,
    file: Option<Seq<u8>>,
    switch: u64,
    decode: bool,
    r: TextureRequests,
) -> bool {
    exists|mid: BatchItem|
        {
            &&& #[trigger] result_brought_back(a, mid, file)
            &&& decode == (a.source_rgba is None && !a.drawn.decode_pending)
            &&& textures_requested(
                BatchItem {
                    drawn: Drawn { decode_pending: decode || mid.drawn.decode_pending, ..mid.drawn },
                    ..mid
                },
                b,
                switch,
                r,
            )
        }
}

/// Draws an item: its result comes back from the history, its source is decoded,
/// and the textures it lacks are prepared.
fn draw_item(item: &mut BatchItem, file: Option<&Vec<u8>>, switch: u64) -> (r: (
    bool,
    TextureRequests,
))
    requires
        old(item).wf(),
    ensures
        final(item).wf(),
        drawn_as(*old(item), *final(item), file_view(file), switch, r.0, r.1),
{
    restore_selected_result_from_history(item, file);
    let ghost mid = *item;
    let decode = ensure_selected_source_decoded(item);
    let textures = request_selected_textures(item, switch);
    assert(result_brought_back(*old(item), mid, file_view(file)));
    (decode, textures)
}

/// Whether what is drawn of a batch was brought up to date: the results of all items
/// but the viewed one are put away, and the viewed one is drawn. `file` is what the
/// file of its newest history entry holds.
pub open spec fn view_synced(
    a: BatchManager,
    b: BatchManager,
    file: Option<Seq<u8>>,
    switch: u64,
    r: Option<ViewSync>,
) -> bool {
    &&& b.selected_index == a.selected_index
    &&& b.next_id == a.next_id
    &&& match a.viewed_index() {
        None => r is None && b.items@ == a.items@,
        Some(v) => r matches Some(sync) && {
            &&& sync.position == v
            &&& sync.delete@.len() == a.items@.len()
            &&& b.items@.len() == a.items@.len()
            &&& drawn_as(
                a.items@[v as int],
                b.items@[v as int],
                file,
                switch,
                sync.decode,
                sync.textures,
            )
            &&& forall|i: int|
                0 <= i < a.items@.len() && i != v ==> result_put_away(
                    a.items@[i],
                    #[trigger] b.items@[i],
                    sync.delete@[i],
                )
        },
    }
}

/// Brings what is drawn of the batch up to date: the results of all items but the
/// viewed one are put away, and the viewed one is drawn. `file` is what the file of
/// its newest history entry holds. `None` where the batch is empty.
pub fn sync_selected_batch_textures(batch: &mut BatchManager, file: Option<&Vec<u8>>, switch: u64) -> (r:
    Option<ViewSync>)
    requires
        crate::app_dispatch::all_wf(old(batch).items@),
    ensures
        crate::app_dispatch::all_wf(final(batch).items@),
        view_synced(*old(batch), *final(batch), file_view(file), switch, r),
{
    let v: usize = match batch.selected_idx_clamped() {
        Some(v) => v,
        None => {
            return None;
        },
    };
    let ghost before = batch.items@;
    let delete = evict_result_rgba_for_background_items(&mut batch.items, v);
    let ghost mid = batch.items@;
    assert(put_away_unless(true, before[v as int], mid[v as int], delete@[v as int]));
    assert(batch.items@[v as int].wf());
    let (decode, textures) = draw_item(&mut batch.items[v], file, switch);
    assert forall|i: int| 0 <= i < before.len() && i != v implies result_put_away(
        before[i],
        #[trigger] batch.items@[i],
        delete@[i],
    ) by {
        assert(batch.items@[i] == mid[i]);
        assert(put_away_unless(i == v, before[i], mid[i], delete@[i]));
    }
    Some(ViewSync { position: v, delete, decode, textures })
}

/// The decoded source of an item has arrived.
pub fn decode_arrived(item: &mut BatchItem, rgba: Arc<Pixmap>)
    ensures
        *final(item) == with_source(*old(item), Ok(rgba)),
{
    item.source_rgba = Some(rgba);
    item.drawn.source_dyn = false;
    item.drawn.decode_pending = false;
}

/// A texture of an item is ready.
pub fn texture_arrived(item: &mut BatchItem, is_result: bool)
    ensures
        *final(item) == with_texture(*old(item), is_result),
{
    if is_result {
        item.drawn.result_texture = true;
        item.drawn.result_tex_pending = false;
    } else {
        item.drawn.source_texture = true;
        item.drawn.source_tex_pending = false;
    }
}

/// What came of decoding a source, and the item it belongs to.
pub struct DecodedSource {
    pub item_id: u64,
    pub result: Result<Arc<Pixmap>, String>,
}

/// An item with its decoded source. Where decoding failed, the item no longer waits.
pub open spec fn with_source(a: BatchItem, result: Result<Arc<Pixmap>, String>) -> BatchItem {
    match result {
        Ok(rgba) => BatchItem {
            source_rgba: Some(rgba),
            drawn: Drawn { source_dyn: false, decode_pending: false, ..a.drawn },
            ..a
        },
        Err(_) => BatchItem { drawn: Drawn { decode_pending: false, ..a.drawn }, ..a },
    }
}

/// Items after the first `n` sources came back. Those whose item is gone are dropped.
pub open spec fn with_sources(s: Seq<BatchItem>, arrived: Seq<DecodedSource>, n: int) -> Seq<BatchItem>
    decreases n,
{
    if n <= 0 {
        s
    } else {
        let t = with_sources(s, arrived, n - 1);
        match place_of(t, arrived[n - 1].item_id) {
            Some(i) => t.update(i, with_source(t[i], arrived[n - 1].result)),
            None => t,
        }
    }
}

/// Whether one of the first `n` sources was decoded and belongs to an item that is
/// there.
pub open spec fn some_source_stored(s: Seq<BatchItem>, arrived: Seq<DecodedSource>, n: int) -> bool
    decreases n,
{
    n > 0 && (some_source_stored(s, arrived, n - 1) || (arrived[n - 1].result is Ok && place_of(
        with_sources(s, arrived, n - 1),
        arrived[n - 1].item_id,
    ) is Some))
}

/// Errors of those of the first `n` sources that could not be decoded and whose item is
/// there, in order.
pub open spec fn decode_errors(s: Seq<BatchItem>, arrived: Seq<DecodedSource>, n: int) -> Seq<String>
    decreases n,
{
    if n <= 0 {
        Seq::empty()
    } else {
        let before = decode_errors(s, arrived, n - 1);
        match (arrived[n - 1].result, place_of(
            with_sources(s, arrived, n - 1),
            arrived[n - 1].item_id,
        )) {
            (Err(e), Some(_)) => before.push(e),
            _ => before,
        }
    }
}

/// Sources that came back.
pub struct Decodes {
    /// Whether any item got its source, so that the viewed one is drawn anew.
    pub any: bool,
    /// What the user is told of those that could not be decoded.
    pub errors: Vec<String>,
}

/// The source of an item could not be decoded: the item no longer waits for it, and the
/// error is handed back for the user. `None` where the item is gone.
pub fn decode_failed(batch: &mut BatchManager, id: u64, message: String) -> (r: Option<String>)
    ensures
        final(batch).selected_index == old(batch).selected_index,
        final(batch).next_id == old(batch).next_id,
        match place_of(old(batch).items@, id) {
            None => r is None && final(batch).items@ == old(batch).items@,
            Some(i) => r == Some(message) && final(batch).items@ == old(batch).items@.update(
                i,
                with_source(old(batch).items@[i], Err(message)),
            ),
        },
{
    proof {
        place_is_first(batch.items@, id);
    }
    match batch.index_of(id) {
        Some(i) => {
            batch.items[i].drawn.decode_pending = false;
            assert(batch.items@ =~= old(batch).items@.update(
                i as int,
                with_source(old(batch).items@[i as int], Err(message)),
            ));
            Some(message)
        },
        None => None,
    }
}

/// The source of an item was decoded. Says whether the item is still there.
fn decode_succeeded(batch: &mut BatchManager, id: u64, rgba: Arc<Pixmap>) -> (r: bool)
    ensures
        final(batch).selected_index == old(batch).selected_index,
        final(batch).next_id == old(batch).next_id,
        match place_of(old(batch).items@, id) {
            None => !r && final(batch).items@ == old(batch).items@,
            Some(i) => r && final(batch).items@ == old(batch).items@.update(
                i,
                with_source(old(batch).items@[i], Ok(rgba)),
            ),
        },
{
    proof {
        place_is_first(batch.items@, id);
    }
    match batch.index_of(id) {
        Some(i) => {
            decode_arrived(&mut batch.items[i], rgba);
            true
        },
        None => false,
    }
}

/// Takes in sources that came back: decoded ones are stored, and items whose source
/// could not be decoded no longer wait.
pub fn decodes_arrived(batch: &mut BatchManager, arrived: Vec<DecodedSource>) -> (r: Decodes)
    ensures
        final(batch).items@ == with_sources(old(batch).items@, arrived@, arrived@.len() as int),
        final(batch).selected_index == old(batch).selected_index,
        final(batch).next_id == old(batch).next_id,
        r.any == some_source_stored(old(batch).items@, arrived@, arrived@.len() as int),
        r.errors@ == decode_errors(old(batch).items@, arrived@, arrived@.len() as int),
{
    let ghost before = batch.items@;
    let ghost all = arrived@;
    let mut rest = arrived;
    let n: usize = rest.len();
    let mut any = false;
    let mut errors: Vec<String> = Vec::new();
    let mut k: usize = 0;
    while k < n
        invariant
            k <= n,
            n == all.len(),
            rest@ == all.skip(k as int),
            batch.items@ == with_sources(before, all, k as int),
            batch.selected_index == old(batch).selected_index,
            batch.next_id == old(batch).next_id,
            any == some_source_stored(before, all, k as int),
            errors@ == decode_errors(before, all, k as int),
        decreases n - k,
    {
        let d = rest.remove(0);
        assert(d == all[k as int]);
        assert(all.skip(k as int).remove(0) =~= all.skip(k as int + 1));
        match d.result {
            Ok(rgba) => {
                if decode_succeeded(batch, d.item_id, rgba) {
                    any = true;
                }
            },
            Err(e) => {
                if let Some(text) = decode_failed(batch, d.item_id, e) {
                    errors.push(text);
                }
            },
        }
        k += 1;
    }
    Decodes { any, errors }
}

/// A source that cannot be decoded leaves no item waiting: what was waited for is over,
/// whatever came of it.
pub proof fn no_item_waits_for_a_failed_source(a: BatchItem, result: Result<Arc<Pixmap>, String>)
    ensures
        !with_source(a, result).drawn.decode_pending,
        result is Err ==> with_source(a, result).source_rgba == a.source_rgba,
{
}

/// A texture that is ready and the item it belongs to.
#[derive(Clone, Copy, Debug, PartialEq, Eq, Structural)]
pub struct ReadyTexture {
    pub item_id: u64,
    pub is_result: bool,
}

/// An item with a texture.
pub open spec fn with_texture(a: BatchItem, is_result: bool) -> BatchItem {
    BatchItem {
        drawn: if is_result {
            Drawn { result_texture: true, result_tex_pending: false, ..a.drawn }
        } else {
            Drawn { source_texture: true, source_tex_pending: false, ..a.drawn }
        },
        ..a
    }
}

/// Items after the first `n` textures arrived. Those whose item is gone are
/// dropped.
pub open spec fn with_textures(s: Seq<BatchItem>, arrived: Seq<ReadyTexture>, n: int) -> Seq<BatchItem>
    decreases n,
{
    if n <= 0 {
        s
    } else {
        let t = with_textures(s, arrived, n - 1);
        match place_of(t, arrived[n - 1].item_id) {
            Some(i) => t.update(i, with_texture(t[i], arrived[n - 1].is_result)),
            None => t,
        }
    }
}

/// Takes in textures that are ready. Says whether one of them belongs to the viewed
/// item: only then is it drawn anew, since drawing puts the results of all others
/// away.
pub fn textures_arrived(batch: &mut BatchManager, arrived: &Vec<ReadyTexture>) -> (r: bool)
    ensures
        final(batch).items@ == with_textures(old(batch).items@, arrived@, arrived@.len() as int),
        final(batch).selected_index == old(batch).selected_index,
        final(batch).next_id == old(batch).next_id,
        r == exists|k: int|
            0 <= k < arrived@.len() && old(batch).viewed_id() == Some(
                (#[trigger] arrived@[k]).item_id,
            ),
{
    let ghost before = *batch;
    let mut any = false;
    let mut k: usize = 0;
    while k < arrived.len()
        invariant
            k <= arrived@.len(),
            before == *old(batch),
            batch.items@ == with_textures(before.items@, arrived@, k as int),
            batch.items@.len() == before.items@.len(),
            forall|i: int|
                0 <= i < before.items@.len() ==> (#[trigger] batch.items@[i]).id
                    == before.items@[i].id,
            batch.selected_index == before.selected_index,
            batch.next_id == before.next_id,
            any == exists|j: int|
                0 <= j < k && before.viewed_id() == Some((#[trigger] arrived@[j]).item_id),
        decreases arrived@.len() - k,
    {
        let t = arrived[k];
        proof {
            place_is_first(batch.items@, t.item_id);
            assert(arrived@[k as int] == t);
        }
        let ghost had = batch.items@;
        match batch.index_of(t.item_id) {
            Some(i) => {
                texture_arrived(&mut batch.items[i], t.is_result);
                assert(batch.items@ =~= had.update(i as int, with_texture(had[i as int], t.is_result)));
            },
            None => {},
        }
        assert(batch.viewed_id() == before.viewed_id());
        if batch.is_selected(t.item_id) {
            any = true;
        }
        k += 1;
    }
    any
}

/// Whether any item waits for a texture or for its source.
pub fn any_tex_pending(items: &Vec<BatchItem>) -> (r: bool)
    ensures
        r == exists|i: int|
            0 <= i < items@.len() && ((#[trigger] items@[i]).drawn.result_tex_pending
                || items@[i].drawn.source_tex_pending || items@[i].drawn.decode_pending),
{
    let mut i: usize = 0;
    while i < items.len()
        invariant
            i <= items@.len(),
            forall|j: int|
                0 <= j < i ==> !((#[trigger] items@[j]).drawn.result_tex_pending
                    || items@[j].drawn.source_tex_pending || items@[j].drawn.decode_pending),
        decreases items@.len() - i,
    {
        let d = items[i].drawn;
        if d.result_tex_pending || d.source_tex_pending || d.decode_pending {
            return true;
        }
        i += 1;
    }
    false
}

/// Seconds between two clean-ups of the history on disk.
pub const HISTORY_CLEANUP_INTERVAL_SECS: u64 = 600;

/// Whether the history on disk is to be cleaned up now. Times are in nanoseconds.
pub fn history_cleanup_due(processor: &mut Processor, now: u64) -> (r: bool)
    ensures
        r == (now >= old(processor).last_history_cleanup && (now
            - old(processor).last_history_cleanup) / 1_000_000_000
            >= HISTORY_CLEANUP_INTERVAL_SECS),
        *final(processor) == (Processor {
            last_history_cleanup: if r {
                now
            } else {
                old(processor).last_history_cleanup
            },
            ..*old(processor)
        }),
{
    let last: u64 = processor.last_history_cleanup;
    let due = now >= last && (now - last) / 1_000_000_000 >= HISTORY_CLEANUP_INTERVAL_SECS;
    if due {
        processor.last_history_cleanup = now;
    }
    due
}

/// Whether a message is an error: it says that something failed or is not there.
pub fn is_error_message(text: &str) -> (r: bool)
    ensures
        r == (has_part(text@, "fail"@) || has_part(text@, "Could not"@) || has_part(
            text@,
            "not available"@,
        )),
{
    contains_text(text, "fail") || contains_text(text, "Could not") || contains_text(
        text,
        "not available",
    )
}

/// Whether a message on a save is an error.
pub fn is_save_error(text: &str) -> (r: bool)
    ensures
        r == has_part(text@, "fail"@),
{
    contains_text(text, "fail")
}

/// Which keys were pressed since the last frame. Those named `fresh` leave out
/// keys that are held.
#[derive(Clone, Copy, Debug, PartialEq, Eq, Structural)]
pub struct Keys {
    pub command: bool,
    pub shift: bool,
    /// A field that takes text has the focus.
    pub text_focused: bool,
    pub o: bool,
    pub r: bool,
    pub s: bool,
    pub z: bool,
    pub y: bool,
    pub b: bool,
    pub a: bool,
    pub d: bool,
    pub h: bool,
    pub tab: bool,
    pub escape: bool,
    pub num0: bool,
    pub num1: bool,
    pub space: bool,
    pub arrow_left: bool,
    pub arrow_right: bool,
    pub fresh_f1: bool,
    pub fresh_f2: bool,
    pub fresh_f3: bool,
    pub fresh_f12: bool,
}

/// What the pressed keys ask for.
#[derive(Clone, Copy, Debug, PartialEq, Eq, Structural)]
pub struct ShortcutIntents {
    pub open_requested: bool,
    pub remove_requested: bool,
    pub save_requested: bool,
    pub cancel_requested: bool,
    pub toggle_shortcuts: bool,
    pub toggle_cli_help: bool,
    pub toggle_pipeline_flow: bool,
    pub toggle_before_after: bool,
    pub fit_to_window: bool,
    pub actual_size: bool,
    pub toggle_settings: bool,
    pub nav_prev: bool,
    pub nav_next: bool,
    pub toggle_sidebar: bool,
    pub toggle_adjustments: bool,
    pub undo_requested: bool,
    pub redo_requested: bool,
    pub preset_undo_requested: bool,
    pub preset_redo_requested: bool,
    pub screenshot_requested: bool,
}

/// What the pressed keys ask for. Keys without a modifier count only while no text
/// is typed.
pub fn collect_shortcut_intents(k: Keys) -> (r: ShortcutIntents)
    ensures
        r.open_requested == (k.command && k.o),
        r.remove_requested == (k.command && k.r),
        r.save_requested == (k.command && k.s),
        r.cancel_requested == k.escape,
        r.toggle_shortcuts == k.fresh_f1,
        r.toggle_cli_help == k.fresh_f2,
        r.toggle_pipeline_flow == k.fresh_f3,
        r.screenshot_requested == (k.shift && k.fresh_f12),
        r.fit_to_window == (k.command && k.num0),
        r.actual_size == (k.command && k.num1),
        r.toggle_settings == (k.command && k.space),
        r.toggle_before_after == (!k.text_focused && k.b),
        r.nav_prev == (!k.text_focused && (k.arrow_left || k.a)),
        r.nav_next == (!k.text_focused && (k.arrow_right || k.d)),
        r.toggle_sidebar == (!k.text_focused && !k.shift && (k.h || k.tab)),
        r.toggle_adjustments == (!k.text_focused && k.shift && k.h),
        r.undo_requested == (k.command && k.z && !k.shift),
        r.redo_requested == (k.command && k.y && !k.shift),
        r.preset_undo_requested == (k.command && k.z && k.shift),
        r.preset_redo_requested == (k.command && k.y && k.shift),
{
    let bare = !k.text_focused;
    ShortcutIntents {
        open_requested: k.command && k.o,
        remove_requested: k.command && k.r,
        save_requested: k.command && k.s,
        cancel_requested: k.escape,
        toggle_shortcuts: k.fresh_f1,
        toggle_cli_help: k.fresh_f2,
        toggle_pipeline_flow: k.fresh_f3,
        toggle_before_after: bare && k.b,
        fit_to_window: k.command && k.num0,
        actual_size: k.command && k.num1,
        toggle_settings: k.command && k.space,
        nav_prev: bare && (k.arrow_left || k.a),
        nav_next: bare && (k.arrow_right || k.d),
        toggle_sidebar: bare && ((k.h && !k.shift) || (k.tab && !k.shift)),
        toggle_adjustments: bare && k.h && k.shift,
        undo_requested: k.command && k.z && !k.shift,
        redo_requested: k.command && k.y && !k.shift,
        preset_undo_requested: k.command && k.z && k.shift,
        preset_redo_requested: k.command && k.y && k.shift,
        screenshot_requested: k.shift && k.fresh_f12,
    }
}

/// While text is typed, no key without a modifier but Escape and the function keys
/// does anything.
pub proof fn typing_is_left_alone(k: Keys, r: ShortcutIntents)
    requires
        k.text_focused,
        !k.command,
        !k.shift,
        call_ensures(collect_shortcut_intents, (k,), r),
    ensures
        !(r.open_requested || r.remove_requested || r.save_requested || r.toggle_before_after
            || r.nav_prev || r.nav_next || r.toggle_sidebar || r.toggle_adjustments
            || r.undo_requested || r.redo_requested || r.toggle_settings),
{
}

/// Actions on pictures that the pressed keys lead to.
#[derive(Clone, Copy, Debug, PartialEq, Eq, Structural)]
pub struct PictureActions {
    pub remove_background: bool,
    pub save: bool,
    pub copy: bool,
    pub toggle_before_after: bool,
}

/// Actions on pictures that the pressed keys lead to, as far as the viewed item
/// allows them: saving, copying and comparing need a result, and an item that is
/// being processed is not processed again.
pub fn picture_actions(intents: &ShortcutIntents, copy_requested: bool, state: AppState) -> (r:
    PictureActions)
    ensures
        r.remove_background == (intents.remove_requested && (state == AppState::Loaded || state
            == AppState::Done)),
        r.save == (intents.save_requested && state == AppState::Done),
        r.copy == (copy_requested && state == AppState::Done),
        r.toggle_before_after == (intents.toggle_before_after && state == AppState::Done),
{
    let done = state == AppState::Done;
    PictureActions {
        remove_background: intents.remove_requested && (done || state == AppState::Loaded),
        save: intents.save_requested && done,
        copy: copy_requested && done,
        toggle_before_after: intents.toggle_before_after && done,
    }
}

/// Which panels are shown.
#[derive(Clone, Copy, Debug, PartialEq, Eq, Structural)]
pub struct Panels {
    pub show_original: bool,
    pub show_settings: bool,
    pub show_shortcuts: bool,
    pub show_cli_help: bool,
    pub show_pipeline_flow: bool,
    pub sidebar_hidden: bool,
    pub adjustments_hidden: bool,
    /// A reset of the settings waits to be confirmed.
    pub pending_reset_confirm: bool,
}

/// What Escape did.
pub enum Dismissed {
    /// Strokes were cancelled, of these items.
    Strokes(Vec<u64>),
    /// Processing was cancelled, and strokes of these items with it.
    Batch(Vec<u64>),
    /// The settings were closed; they are to be saved.
    Settings,
    Shortcuts,
    CliHelp,
    PipelineFlow,
    Nothing,
}

impl Panels {
    /// Whether a dialog is open.
    pub fn any_modal_open(&self) -> (r: bool)
        ensures
            r == (self.show_settings || self.show_shortcuts || self.show_cli_help
                || self.show_pipeline_flow),
    {
        self.show_settings || self.show_shortcuts || self.show_cli_help || self.show_pipeline_flow
    }

    /// Closes the settings. A half-made reset is forgotten.
    pub fn close_settings(&mut self)
        ensures
            *final(self) == (Panels {
                show_settings: false,
                pending_reset_confirm: false,
                ..*old(self)
            }),
    {
        self.show_settings = false;
        self.pending_reset_confirm = false;
    }

    /// Opens or closes the settings. Says whether they were closed and are to be
    /// saved.
    pub fn toggle_settings_panel(&mut self) -> (saved: bool)
        ensures
            saved == old(self).show_settings,
            *final(self) == if old(self).show_settings {
                Panels { show_settings: false, pending_reset_confirm: false, ..*old(self) }
            } else {
                Panels { show_settings: true, ..*old(self) }
            },
    {
        if self.show_settings {
            self.close_settings();
            true
        } else {
            self.show_settings = true;
            false
        }
    }

    /// Shows and hides panels as the pressed keys ask for. The settings are not
    /// among them.
    pub fn apply_toggles(&mut self, intents: &ShortcutIntents)
        ensures
            *final(self) == (Panels {
                show_shortcuts: old(self).show_shortcuts != intents.toggle_shortcuts,
                show_cli_help: old(self).show_cli_help != intents.toggle_cli_help,
                show_pipeline_flow: old(self).show_pipeline_flow != intents.toggle_pipeline_flow,
                sidebar_hidden: old(self).sidebar_hidden != intents.toggle_sidebar,
                adjustments_hidden: old(self).adjustments_hidden != intents.toggle_adjustments,
                ..*old(self)
            }),
    {
        self.show_shortcuts = self.show_shortcuts != intents.toggle_shortcuts;
        self.show_cli_help = self.show_cli_help != intents.toggle_cli_help;
        self.show_pipeline_flow = self.show_pipeline_flow != intents.toggle_pipeline_flow;
        self.sidebar_hidden = self.sidebar_hidden != intents.toggle_sidebar;
        self.adjustments_hidden = self.adjustments_hidden != intents.toggle_adjustments;
    }

    /// Whether the row of adjustments is shown. `auto_hide` hides it unless the
    /// pointer is near it or a popup is open.
    pub fn adjustments_should_show(&self, empty: bool, auto_hide: bool, near: bool, popup: bool) -> (r:
        bool)
        ensures
            r == (!self.adjustments_hidden && !empty && (!auto_hide || near || popup)),
    {
        if self.adjustments_hidden || empty {
            return false;
        }
        if !auto_hide {
            return true;
        }
        near || popup
    }

    /// Whether the sidebar is shown.
    pub fn sidebar_visible(&self, empty: bool) -> (r: bool)
        ensures
            r == (!empty && !self.sidebar_hidden),
    {
        !empty && !self.sidebar_hidden
    }
}

/// Whether a stroke runs.
pub open spec fn any_stroke(p: Processor) -> bool {
    exists|id: u64| #[trigger] crate::processor::left_running(p.inpaint_pending@, id, 0) > 0
}

/// Whether strokes were cancelled, of exactly the given items.
pub open spec fn strokes_cancelled(p: Processor, q: Processor, ids: Seq<u64>) -> bool {
    &&& forall|k: u64| ids.contains(k) <==> p.inpaint_cancels@.contains_key(k)
    &&& q.inpaint_cancels@.dom() == p.inpaint_cancels@.dom()
    &&& forall|k: u64| #[trigger] q.inpaint_cancels@.contains_key(k) ==> q.inpaint_cancels@[k]
    &&& q.inpaint_pending == p.inpaint_pending
    &&& q.inpaint_latest_gen == p.inpaint_latest_gen
    &&& q.inpaint_progress == p.inpaint_progress
    &&& q.live_preview == p.live_preview
    &&& q.in_flight == p.in_flight
    &&& q.last_history_cleanup == p.last_history_cleanup
}

/// Cancels everything that runs: the batch and all strokes. Returns the items
/// whose strokes were cancelled.
pub fn handle_cancel(processor: &mut Processor) -> (r: Vec<u64>)
    ensures
        strokes_cancelled(*old(processor), *final(processor), r@),
        final(processor).cancels.all(),
        final(processor).cancels.items() == old(processor).cancels.items(),
        final(processor).admission == old(processor).admission,
        final(processor).admission_open == old(processor).admission_open,
{
    processor.cancels.request_global_cancel();
    processor.cancel_all_inpaints()
}

/// Cancels the running stroke of an item.
pub fn cancel_inpaint_for(processor: &mut Processor, item_id: u64)
    ensures
        final(processor).only_strokes_differ(old(processor)),
        final(processor).inpaint_latest_gen == old(processor).inpaint_latest_gen,
        final(processor).inpaint_pending == old(processor).inpaint_pending,
        final(processor).inpaint_progress == old(processor).inpaint_progress,
        final(processor).inpaint_cancels@ == if crate::processor::left_running(
            old(processor).inpaint_pending@,
            item_id,
            0,
        ) > 0 && old(processor).inpaint_cancels@.contains_key(item_id) {
            old(processor).inpaint_cancels@.insert(item_id, true)
        } else {
            old(processor).inpaint_cancels@
        },
{
    if processor.is_inpaint_in_flight(item_id) {
        processor.cancel_inpaint(item_id);
    }
}

/// Escape dismisses the topmost thing that can be interrupted: running strokes,
/// else processing, else the open dialog.
pub fn apply_cancel_shortcut(
    panels: &mut Panels,
    processor: &mut Processor,
    batch: &mut BatchManager,
) -> (r: Dismissed)
    ensures
        ({
            let p = *old(panels);
            let processing = crate::batch_manager::tally(old(batch).items@).1;
            let same_batch = *final(batch) == *old(batch);
            if any_stroke(*old(processor)) {
                &&& r matches Dismissed::Strokes(ids) && strokes_cancelled(
                    *old(processor),
                    *final(processor),
                    ids@,
                )
                &&& final(processor).cancels == old(processor).cancels
                &&& final(processor).admission == old(processor).admission
                &&& final(processor).admission_open == old(processor).admission_open
                &&& *final(panels) == p
                &&& same_batch
            } else if processing > 0 {
                &&& r matches Dismissed::Batch(ids) && strokes_cancelled(
                    *old(processor),
                    *final(processor),
                    ids@,
                )
                &&& final(processor).cancels.all()
                &&& final(processor).cancels.items() == old(processor).cancels.items()
                &&& final(processor).admission is None
                &&& !final(processor).admission_open
                &&& *final(panels) == p
                &&& final(batch).selected_index == old(batch).selected_index
                &&& final(batch).next_id == old(batch).next_id
                &&& final(batch).items@.len() == old(batch).items@.len()
                &&& forall|i: int|
                    0 <= i < old(batch).items@.len() ==> #[trigger] final(batch).items@[i]
                        == if old(batch).items@[i].status is Processing {
                        BatchItem { status: BatchStatus::Pending, ..old(batch).items@[i] }
                    } else {
                        old(batch).items@[i]
                    }
            } else {
                &&& *final(processor) == *old(processor)
                &&& same_batch
                &&& if p.show_settings {
                    r is Settings && *final(panels) == (Panels {
                        show_settings: false,
                        pending_reset_confirm: false,
                        ..p
                    })
                } else if p.show_shortcuts {
                    r is Shortcuts && *final(panels) == (Panels { show_shortcuts: false, ..p })
                } else if p.show_cli_help {
                    r is CliHelp && *final(panels) == (Panels { show_cli_help: false, ..p })
                } else if p.show_pipeline_flow {
                    r is PipelineFlow && *final(panels) == (Panels {
                        show_pipeline_flow: false,
                        ..p
                    })
                } else {
                    r is Nothing && *final(panels) == p
                }
            }
        }),
{
    if processor.any_inpaint_in_flight() {
        return Dismissed::Strokes(processor.cancel_all_inpaints());
    }
    if batch.status_counts().processing > 0 {
        let strokes = handle_cancel(processor);
        processor.clear_admission();
        batch.reset_processing_to_pending();
        return Dismissed::Batch(strokes);
    }
    if panels.show_settings {
        panels.close_settings();
        Dismissed::Settings
    } else if panels.show_shortcuts {
        panels.show_shortcuts = false;
        Dismissed::Shortcuts
    } else if panels.show_cli_help {
        panels.show_cli_help = false;
        Dismissed::CliHelp
    } else if panels.show_pipeline_flow {
        panels.show_pipeline_flow = false;
        Dismissed::PipelineFlow
    } else {
        Dismissed::Nothing
    }
}

/// After processing was cancelled nothing is being processed, so that the next
/// Escape goes to the dialogs.
pub proof fn cancelling_leaves_nothing_processing(a: Seq<BatchItem>, b: Seq<BatchItem>)
    requires
        b.len() == a.len(),
        forall|i: int|
            0 <= i < a.len() ==> #[trigger] b[i] == if a[i].status is Processing {
                BatchItem { status: BatchStatus::Pending, ..a[i] }
            } else {
                a[i]
            },
    ensures
        crate::batch_manager::tally(b).1 == 0,
    decreases a.len(),
{
    if a.len() > 0 {
        let s = a.drop_last();
        let t = b.drop_last();
        assert forall|i: int| 0 <= i < s.len() implies #[trigger] t[i] == if s[i].status is Processing {
            BatchItem { status: BatchStatus::Pending, ..s[i] }
        } else {
            s[i]
        } by {
            assert(t[i] == b[i]);
            assert(s[i] == a[i]);
        }
        cancelling_leaves_nothing_processing(s, t);
        assert(b.last() == b[b.len() - 1]);
    }
}

/// What the user is told at start where the picked model has to be downloaded
/// first.
pub fn onboarding_text(name: &str, available: bool) -> (r: Option<String>)
    ensures
        crate::app_process::shown(r) == if available {
            None
        } else {
            Some(
                name@
                    + " is now an on-demand download \u{2014} open the Model Store from the model dropdown."@,
            )
        },
{
    if available {
        None
    } else {
        Some(
            join2(
                name,
                " is now an on-demand download \u{2014} open the Model Store from the model dropdown.",
            ),
        )
    }
}

impl Panels {
    /// The panels at start. A tab that is asked for opens the settings.
    pub fn at_start(settings_tab_asked: bool) -> (r: Panels)
        ensures
            r == (Panels {
                show_original: false,
                show_settings: settings_tab_asked,
                show_shortcuts: false,
                show_cli_help: false,
                show_pipeline_flow: false,
                sidebar_hidden: false,
                adjustments_hidden: false,
                pending_reset_confirm: false,
            }),
    {
        Panels {
            show_original: false,
            show_settings: settings_tab_asked,
            show_shortcuts: false,
            show_cli_help: false,
            show_pipeline_flow: false,
            sidebar_hidden: false,
            adjustments_hidden: false,
            pending_reset_confirm: false,
        }
    }
}

/// The answer to the question whether a licence is accepted. An accepted one has
/// its model downloaded; the question goes away with either answer, and stays
/// without one. Returns the model to download.
pub fn answer_license(pending: &mut Option<ModelId>, close: bool, accepted: bool) -> (r: Option<
    ModelId,
>)
    ensures
        r == if accepted {
            *old(pending)
        } else {
            None
        },
        *final(pending) == if accepted || close {
            None
        } else {
            *old(pending)
        },
{
    let id = *pending;
    if accepted {
        *pending = None;
        return id;
    }
    if close {
        *pending = None;
    }
    None
}

/// Whether the user is asked to install a runtime. The question comes up once, and
/// only where the machine would gain from a runtime that is not installed and that
/// was not put off.
pub fn maybe_evaluate_runtime_prompt(
    evaluated: &mut bool,
    recommended: bool,
    installed: bool,
    snoozed: bool,
) -> (r: bool)
    ensures
        *final(evaluated),
        r == (!*old(evaluated) && recommended && !installed && !snoozed),
{
    if *evaluated {
        return false;
    }
    *evaluated = true;
    recommended && !installed && !snoozed
}

/// A step forward views the next picture and a step back the one before; at either end
/// the batch starts over at the other.
pub proof fn steps_go_in_their_direction(at: int, len: int)
    requires
        0 <= at < len,
    ensures
        at + 1 < len ==> stepped(at, len, NavDir::Next) == at + 1,
        at + 1 == len ==> stepped(at, len, NavDir::Next) == 0,
        at > 0 ==> stepped(at, len, NavDir::Prev) == at - 1,
        at == 0 ==> stepped(at, len, NavDir::Prev) == len - 1,
{
    if at + 1 < len {
        vstd::arithmetic::div_mod::lemma_small_mod((at + 1) as nat, len as nat);
    } else {
        vstd::arithmetic::div_mod::lemma_mod_self_0(len);
    }
}

/// Putting a result away touches nothing but where it is kept: the settings, the source,
/// the caches and every older result stay, and only a finished result is put away.
pub proof fn putting_away_keeps_the_rest(a: BatchItem, b: BatchItem, dropped: Option<String>)
    requires
        result_put_away(a, b, dropped),
    ensures
        b.settings == a.settings && b.source_rgba == a.source_rgba && b.caches == a.caches
            && b.status == a.status && b.redo_stack == a.redo_stack && b.applied_recipe
            == a.applied_recipe && b.id == a.id,
        !(a.status is Done) ==> b == a,
        forall|i: int|
            0 <= i < a.history@.len() - 1 && i < b.history@.len() ==> #[trigger] b.history@[i]
                == a.history@[i],
        b.history@.len() >= a.history@.len(),
        a.result_rgba is None || !(a.status is Done) || a.history@.len() == 0 ==> dropped is None,
        a.result_rgba is Some && a.status is Done && a.history@.len() > 0 ==> dropped == file_of(
            a.history@.last().slot,
        ),
        a.result_rgba is Some && a.status is Done ==> b.result_rgba is None && b.history@.len() > 0
            && b.history@.last().packs(a.result_rgba->0, a.applied_recipe),
{
    if !(a.result_rgba is None || !(a.status is Done)) {
        if a.history@.len() > 0 {
            let h = a.history@.drop_last();
            assert forall|i: int| 0 <= i < a.history@.len() - 1 && i < b.history@.len() implies #[trigger] b.history@[i]
                == a.history@[i] by {
                assert(b.history@.drop_last()[i] == h[i]);
            }
        }
    }
}

/// Whether an id is among those of the first `n` sources.
pub open spec fn source_named(arrived: Seq<DecodedSource>, n: int, id: u64) -> bool {
    exists|k: int| 0 <= k < n && (#[trigger] arrived[k]).item_id == id
}

/// A decoded source goes to its own item: an item that none came for stays as it is, and
/// one that gets a picture shows that picture and waits no longer.
pub proof fn sources_go_to_their_item(s: Seq<BatchItem>, arrived: Seq<DecodedSource>, n: int, i: int)
    requires
        0 <= n <= arrived.len(),
        0 <= i < s.len(),
    ensures
        with_sources(s, arrived, n).len() == s.len(),
        with_sources(s, arrived, n)[i].id == s[i].id,
        !source_named(arrived, n, s[i].id) ==> with_sources(s, arrived, n)[i] == s[i],
    decreases n,
{
    if n > 0 {
        sources_go_to_their_item(s, arrived, n - 1, i);
        let t = with_sources(s, arrived, n - 1);
        let id = arrived[n - 1].item_id;
        place_is_first(t, id);
        if source_named(arrived, n - 1, s[i].id) {
            let k = choose|k: int| 0 <= k < n - 1 && (#[trigger] arrived[k]).item_id == s[i].id;
            assert(source_named(arrived, n, s[i].id));
        }
        if id == s[i].id {
            assert(source_named(arrived, n, s[i].id));
        }
    }
}

/// What came of decoding is what the item shows: the picture where there is one, else
/// what it showed before.
pub proof fn decoded_sources_are_shown(a: BatchItem, result: Result<Arc<Pixmap>, String>)
    ensures
        ({
            let b = with_source(a, result);
            &&& result matches Ok(p) ==> b.source_rgba == Some(p) && !b.drawn.source_dyn
            &&& result is Err ==> b.source_rgba == a.source_rgba
            &&& !b.drawn.decode_pending
            &&& b.result_rgba == a.result_rgba && b.settings == a.settings && b.status == a.status
                && b.history == a.history && b.caches == a.caches
        }),
{
}

/// A texture that is ready is that of the picture it was asked for: of the result or of
/// the source, never of both.
pub proof fn textures_are_told_apart(a: BatchItem, is_result: bool)
    ensures
        ({
            let b = with_texture(a, is_result);
            &&& is_result ==> b.drawn.result_texture && !b.drawn.result_tex_pending
                && b.drawn.source_texture == a.drawn.source_texture && b.drawn.source_tex_pending
                == a.drawn.source_tex_pending
            &&& !is_result ==> b.drawn.source_texture && !b.drawn.source_tex_pending
                && b.drawn.result_texture == a.drawn.result_texture && b.drawn.result_tex_pending
                == a.drawn.result_tex_pending
            &&& b.result_rgba == a.result_rgba && b.source_rgba == a.source_rgba
        }),
{
}

/// A texture is asked for exactly where there are pixels to draw and none is ready or on
/// its way.
pub proof fn missing_textures_are_asked_for(
    a: BatchItem,
    b: BatchItem,
    switch: u64,
    r: TextureRequests,
)
    requires
        textures_requested(a, b, switch, r),
    ensures
        r.source is Some <==> a.source_rgba is Some && !a.drawn.source_texture
            && !a.drawn.source_tex_pending,
        r.result is Some <==> a.result_rgba is Some && !a.drawn.result_texture
            && !a.drawn.result_tex_pending,
        r.result is Some ==> b.drawn.result_tex_pending,
        r.source is Some ==> b.drawn.source_tex_pending,
        b.result_rgba == a.result_rgba && b.source_rgba == a.source_rgba,
{
}

/// The viewed item is drawn from its result, which comes back out of its history where
/// it was put away, and its source is decoded exactly where it is neither there nor on
/// its way. Nothing else of the item changes.
pub proof fn viewed_items_are_drawn(
    a: BatchItem,
    b: BatchItem,
    file: Option<Seq<u8>>,
    switch: u64,
    decode: bool,
    r: TextureRequests,
)
    requires
        drawn_as(a, b, file, switch, decode, r),
    ensures
        decode <==> a.source_rgba is None && !a.drawn.decode_pending,
        decode ==> b.drawn.decode_pending,
        a.result_rgba is Some ==> b.result_rgba == a.result_rgba && b.applied_recipe
            == a.applied_recipe,
        a.result_rgba is None && a.status is Done && a.history@.len() > 0 ==> crate::item::picture_view(
            b.result_rgba,
        ) == a.history@.last().slot.picture(file) && b.applied_recipe == a.history@.last().recipe,
        b.result_rgba is Some ==> b.drawn.result_texture || b.drawn.result_tex_pending,
        b.source_rgba is Some ==> b.drawn.source_texture || b.drawn.source_tex_pending,
        r.result is Some ==> b.result_rgba is Some && b.drawn.result_tex_pending,
        r.source is Some ==> b.source_rgba is Some && b.drawn.source_tex_pending,
        b.id == a.id && b.settings == a.settings && b.status == a.status && b.history == a.history
            && b.caches == a.caches && b.source_rgba == a.source_rgba && b.selected == a.selected,
{
}

/// Bringing the view up to date draws the viewed item alone and puts the results of all
/// others away, where they can be had again.
pub proof fn only_the_viewed_item_is_drawn(
    a: BatchManager,
    b: BatchManager,
    file: Option<Seq<u8>>,
    switch: u64,
    r: Option<ViewSync>,
    i: int,
)
    requires
        view_synced(a, b, file, switch, r),
        0 <= i < a.items@.len(),
    ensures
        b.items@.len() == a.items@.len(),
        b.selected_index == a.selected_index,
        b.items@[i].id == a.items@[i].id,
        b.items@[i].settings == a.items@[i].settings,
        a.viewed_index() matches Some(v) ==> r is Some && r->0.position == v,
        a.viewed_index() is Some && i != a.viewed_index()->0 && a.items@[i].status is Done
            ==> b.items@[i].result_rgba is None,
        a.viewed_index() is Some && i != a.viewed_index()->0 && !(a.items@[i].status is Done)
            ==> b.items@[i] == a.items@[i],
{
    if let Some(v) = a.viewed_index() {
        if i == v {
            let sync = r->0;
            viewed_items_are_drawn(
                a.items@[i],
                b.items@[i],
                file,
                switch,
                sync.decode,
                sync.textures,
            );
        } else {
            assert(result_put_away(a.items@[i], b.items@[i], r->0.delete@[i]));
        }
    }
}

/// The last source that came back goes to the item it was decoded for.
pub proof fn sources_reach_their_item(s: Seq<BatchItem>, arrived: Seq<DecodedSource>, n: int, i: int)
    requires
        0 < n <= arrived.len(),
        0 <= i < s.len(),
        arrived[n - 1].item_id == s[i].id,
        forall|j: int| 0 <= j < i ==> (#[trigger] s[j]).id != s[i].id,
    ensures
        with_sources(s, arrived, n)[i] == with_source(
            with_sources(s, arrived, n - 1)[i],
            arrived[n - 1].result,
        ),
        arrived[n - 1].result is Ok ==> some_source_stored(s, arrived, n),
        arrived[n - 1].result matches Err(e) ==> decode_errors(s, arrived, n).len() > 0
            && decode_errors(s, arrived, n).last() == e,
{
    let t = with_sources(s, arrived, n - 1);
    let id = arrived[n - 1].item_id;
    sources_go_to_their_item(s, arrived, n - 1, i);
    place_is_first(t, id);
    match place_of(t, id) {
        Some(p) => {
            if p < i {
                sources_go_to_their_item(s, arrived, n - 1, p);
                assert(s[p].id == s[i].id);
            }
            if p > i {
                assert(t[i].id != id);
            }
        },
        None => {
            assert(t[i].id != id);
        },
    }
}

/// Sources of items that are gone change nothing and are not reported.
pub proof fn sources_without_an_item_are_dropped(
    s: Seq<BatchItem>,
    arrived: Seq<DecodedSource>,
    n: int,
)
    requires
        0 <= n <= arrived.len(),
        forall|k: int, i: int|
            0 <= k < n && 0 <= i < s.len() ==> (#[trigger] arrived[k]).item_id != (
            #[trigger] s[i]).id,
    ensures
        with_sources(s, arrived, n) == s,
        !some_source_stored(s, arrived, n),
        decode_errors(s, arrived, n).len() == 0,
    decreases n,
{
    if n > 0 {
        sources_without_an_item_are_dropped(s, arrived, n - 1);
        place_is_first(s, arrived[n - 1].item_id);
        if let Some(p) = place_of(s, arrived[n - 1].item_id) {
            assert(arrived[n - 1].item_id == s[p].id);
        }
    }
}

/// A texture goes to the item it was prepared for and to no other.
pub proof fn textures_go_to_their_item(s: Seq<BatchItem>, arrived: Seq<ReadyTexture>, n: int, i: int)
    requires
        0 <= n <= arrived.len(),
        0 <= i < s.len(),
    ensures
        with_textures(s, arrived, n).len() == s.len(),
        with_textures(s, arrived, n)[i].id == s[i].id,
        (forall|k: int| 0 <= k < n ==> (#[trigger] arrived[k]).item_id != s[i].id)
            ==> with_textures(s, arrived, n)[i] == s[i],
        n > 0 && arrived[n - 1].item_id == s[i].id && (forall|j: int|
            0 <= j < i ==> (#[trigger] s[j]).id != s[i].id) ==> with_textures(s, arrived, n)[i]
            == with_texture(with_textures(s, arrived, n - 1)[i], arrived[n - 1].is_result),
    decreases n,
{
    if n > 0 {
        let t = with_textures(s, arrived, n - 1);
        let id = arrived[n - 1].item_id;
        textures_go_to_their_item(s, arrived, n - 1, i);
        place_is_first(t, id);
        if let Some(p) = place_of(t, id) {
            assert(0 <= p < t.len() && t[p].id == id);
            if id == s[i].id && (forall|j: int| 0 <= j < i ==> (#[trigger] s[j]).id != s[i].id) {
                if p < i {
                    textures_go_to_their_item(s, arrived, n - 1, p);
                    assert(s[p].id == s[i].id);
                }
                if p > i {
                    assert(t[i].id != id);
                }
            }
        } else {
            assert(t[i].id != id);
        }
    }
}

/// The title starts with the name of the program and tells one picture, several and
/// none apart: it ends with the picture's name, or says how many there are.
pub proof fn titles_say_what_is_open(t: TitleState)
    ensures
        "Prunr"@.is_prefix_of(t.text()),
        t is Empty <==> t.text() == "Prunr"@,
        t matches TitleState::Single(name) ==> name@.is_suffix_of(t.text()),
        t matches TitleState::Batch(n) ==> (decimal(n as nat) + " images"@).is_suffix_of(t.text()),
{
    reveal_strlit("Prunr");
    reveal_strlit("Prunr \u{2014} ");
    let x = t.text();
    assert(x.subrange(0, 5) =~= "Prunr"@);
    match t {
        TitleState::Single(name) => {
            assert(x.subrange(x.len() - name@.len(), x.len() as int) =~= name@);
        },
        TitleState::Batch(n) => {
            let e = decimal(n as nat) + " images"@;
            assert(x.subrange(x.len() - e.len(), x.len() as int) =~= e);
        },
        TitleState::Empty => {},
    }
}

} // verus!
