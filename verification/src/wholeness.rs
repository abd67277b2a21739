//! A batch stays whole: whatever is done with it, every picture in it fills its
//! size, as long as the pictures that come in do.
use vstd::prelude::*;
use crate::app_dispatch::{
    after_starts, all_wf, broadcast_to, place_is_first, place_of, set_up_all,
    starting_changes_only_status, Loaded, RerunKind,
};
use crate::app_export::unchecked;
use crate::app_import::{grown_by, NewItem};
use crate::app_process::{planned, ProcessPlan};
use crate::app_results::{recoloured, with_recoloured, Recoloured};
use crate::app_toolbar::{all_previewed, previewed};
use crate::app_view::{with_source, with_sources, with_texture, with_textures, DecodedSource, ReadyTexture};
use crate::batch_manager::BatchManager;
use crate::item::{BatchItem, ImageSource};
use crate::item_settings::ItemSettings;
use crate::live_preview::PreviewResult;
use crate::pipeline::{MaskRecipe, ModelKind, RequiredTier};

verus! {

/// Deciding what to process keeps a batch whole.
pub proof fn planning_keeps_a_batch_whole(
    a: Seq<BatchItem>,
    b: Seq<BatchItem>,
    wanted: Set<u64>,
    tiers: Seq<RequiredTier>,
    model: Option<ModelKind>,
    chain: bool,
    plan: ProcessPlan,
)
    requires
        all_wf(a),
        planned(a, b, wanted, tiers, model, chain, plan),
    ensures
        all_wf(b),
{
    assert forall|i: int| 0 <= i < b.len() implies (#[trigger] b[i]).wf() by {
        assert(a[i].wf());
    }
}

/// Setting up reruns keeps a batch whole.
pub proof fn reruns_keep_a_batch_whole(
    a: Seq<BatchItem>,
    b: Seq<BatchItem>,
    ids: Set<u64>,
    loads: Seq<Loaded>,
    kind: RerunKind,
)
    requires
        all_wf(a),
        set_up_all(a, b, ids, loads, kind),
    ensures
        all_wf(b),
{
    assert forall|i: int| 0 <= i < b.len() implies (#[trigger] b[i]).wf() by {
        assert(a[i].wf());
    }
}

/// Starting full runs keeps a batch whole.
pub proof fn starts_keep_a_batch_whole(
    s: Seq<BatchItem>,
    ids: Seq<u64>,
    loaded: Seq<bool>,
    n: int,
)
    requires
        all_wf(s),
    ensures
        all_wf(after_starts(s, ids, loaded, n)),
{
    starting_changes_only_status(s, ids, loaded, n);
    let t = after_starts(s, ids, loaded, n);
    assert forall|i: int| 0 <= i < t.len() implies (#[trigger] t[i]).wf() by {
        assert(s[i].wf());
    }
}

/// Handing items out with the settings of the viewed one keeps a batch whole.
pub proof fn broadcasts_keep_a_batch_whole(
    a: Seq<BatchItem>,
    b: Seq<BatchItem>,
    ids: Set<u64>,
    settings: ItemSettings,
)
    requires
        all_wf(a),
        broadcast_to(a, b, ids, settings),
    ensures
        all_wf(b),
{
    assert forall|i: int| 0 <= i < b.len() implies (#[trigger] b[i]).wf() by {
        assert(a[i].wf());
    }
}

/// Whole recoloured pictures keep a batch whole.
pub proof fn recoloured_pictures_keep_a_batch_whole(
    s: Seq<BatchItem>,
    arrived: Seq<Recoloured>,
    n: int,
)
    requires
        all_wf(s),
        n <= arrived.len(),
        forall|k: int|
            0 <= k < arrived.len() ==> ((#[trigger] arrived[k]).result matches Ok(p) ==> p.wf()),
    ensures
        all_wf(with_recoloured(s, arrived, n)),
    decreases n,
{
    if n > 0 {
        recoloured_pictures_keep_a_batch_whole(s, arrived, n - 1);
        let t = with_recoloured(s, arrived, n - 1);
        place_is_first(t, arrived[n - 1].item_id);
        if let Some(i) = place_of(t, arrived[n - 1].item_id) {
            assert(t[i].wf());
            assert(recoloured(t[i], arrived[n - 1].result).wf());
        }
    }
}

/// Whole sources keep a batch whole.
pub proof fn sources_keep_a_batch_whole(s: Seq<BatchItem>, arrived: Seq<DecodedSource>, n: int)
    requires
        all_wf(s),
        n <= arrived.len(),
        forall|k: int|
            0 <= k < arrived.len() ==> ((#[trigger] arrived[k]).result matches Ok(p) ==> p.wf()),
    ensures
        all_wf(with_sources(s, arrived, n)),
    decreases n,
{
    if n > 0 {
        sources_keep_a_batch_whole(s, arrived, n - 1);
        let t = with_sources(s, arrived, n - 1);
        place_is_first(t, arrived[n - 1].item_id);
        if let Some(i) = place_of(t, arrived[n - 1].item_id) {
            assert(t[i].wf());
            assert(with_source(t[i], arrived[n - 1].result).wf());
        }
    }
}

/// Textures keep a batch whole.
pub proof fn textures_keep_a_batch_whole(s: Seq<BatchItem>, arrived: Seq<ReadyTexture>, n: int)
    requires
        all_wf(s),
        n <= arrived.len(),
    ensures
        all_wf(with_textures(s, arrived, n)),
    decreases n,
{
    if n > 0 {
        textures_keep_a_batch_whole(s, arrived, n - 1);
        let t = with_textures(s, arrived, n - 1);
        place_is_first(t, arrived[n - 1].item_id);
        if let Some(i) = place_of(t, arrived[n - 1].item_id) {
            assert(t[i].wf());
            assert(with_texture(t[i], arrived[n - 1].is_result).wf());
        }
    }
}

/// Whole previews keep a batch whole.
pub proof fn previews_keep_a_batch_whole(
    s: Seq<BatchItem>,
    results: Seq<PreviewResult>,
    masks: Seq<MaskRecipe>,
    n: int,
)
    requires
        all_wf(s),
        n <= results.len(),
        forall|k: int| 0 <= k < results.len() ==> (#[trigger] results[k]).rgba.wf(),
    ensures
        all_wf(all_previewed(s, results, masks, n)),
    decreases n,
{
    if n > 0 {
        previews_keep_a_batch_whole(s, results, masks, n - 1);
        let t = all_previewed(s, results, masks, n - 1);
        place_is_first(t, results[n - 1].item_id);
        if let Some(i) = place_of(t, results[n - 1].item_id) {
            assert(t[i].wf());
            assert(previewed(t[i], results[n - 1], masks[n - 1]).wf());
        }
    }
}

/// New items keep a batch whole.
pub proof fn growing_keeps_a_batch_whole(
    a: BatchManager,
    b: BatchManager,
    source: ImageSource,
    dims: (u32, u32),
    name: Seq<char>,
    new: NewItem,
)
    requires
        all_wf(a.items@),
        grown_by(a, b, source, dims, name, new),
    ensures
        all_wf(b.items@),
{
    let n = a.items@.len() as int;
    assert forall|i: int| 0 <= i < b.items@.len() implies (#[trigger] b.items@[i]).wf() by {
        if i < n {
            assert(b.items@.take(n)[i] == b.items@[i]);
            assert(a.items@[i].wf());
        } else {
            assert(b.items@[n].fresh());
        }
    }
}

/// Removing the checked items keeps a batch whole.
pub proof fn removing_keeps_a_batch_whole(s: Seq<BatchItem>, n: int)
    requires
        all_wf(s),
        0 <= n <= s.len(),
    ensures
        all_wf(unchecked(s, n)),
    decreases n,
{
    if n > 0 {
        removing_keeps_a_batch_whole(s, n - 1);
        let before = unchecked(s, n - 1);
        assert forall|i: int| 0 <= i < unchecked(s, n).len() implies (#[trigger] unchecked(
            s,
            n,
        )[i]).wf() by {
            if i < before.len() {
                assert(unchecked(s, n)[i] == before[i]);
                assert(before[i].wf());
            } else {
                assert(s[n - 1].wf());
            }
        }
    }
}

} // verus!
