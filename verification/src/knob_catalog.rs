//! Which part of the pipeline each adjustment touches: its tier, the caches it
//! invalidates and how it is dispatched. One table drives every routing
//! decision.
use vstd::prelude::*;
use crate::item_settings::ItemSettings;
use crate::pipeline::{LineMode, ModelKind, ProcessingRecipe, RequiredTier};

verus! {

/// Adjustments whose routing depends on nothing but which one it is.
#[derive(Clone, Copy, Debug, PartialEq, Eq, Hash, Structural)]
pub enum StaticKnob {
    Gamma,
    Threshold,
    EdgeShift,
    RefineEdges,
    GuidedRadius,
    GuidedEpsilon,
    Feather,
    FillStyle,
    BgEffect,
    LineStrength,
    EdgeThickness,
    EdgeScale,
    SolidLineColor,
    ComposeMode,
    LineStyle,
    BgColor,
    Model,
    ChainMode,
}

impl StaticKnob {
    /// All adjustments, each at the place its ordinal gives.
    pub const ALL: [StaticKnob; 18] = [
        StaticKnob::Gamma,
        StaticKnob::Threshold,
        StaticKnob::EdgeShift,
        StaticKnob::RefineEdges,
        StaticKnob::GuidedRadius,
        StaticKnob::GuidedEpsilon,
        StaticKnob::Feather,
        StaticKnob::FillStyle,
        StaticKnob::BgEffect,
        StaticKnob::LineStrength,
        StaticKnob::EdgeThickness,
        StaticKnob::EdgeScale,
        StaticKnob::SolidLineColor,
        StaticKnob::ComposeMode,
        StaticKnob::LineStyle,
        StaticKnob::BgColor,
        StaticKnob::Model,
        StaticKnob::ChainMode,
    ];

    /// Bit position of an adjustment in a `KnobSet`.
    pub open spec fn position(self) -> u32 {
        match self {
            StaticKnob::Gamma => 0,
            StaticKnob::Threshold => 1,
            StaticKnob::EdgeShift => 2,
            StaticKnob::RefineEdges => 3,
            StaticKnob::GuidedRadius => 4,
            StaticKnob::GuidedEpsilon => 5,
            StaticKnob::Feather => 6,
            StaticKnob::FillStyle => 7,
            StaticKnob::BgEffect => 8,
            StaticKnob::LineStrength => 9,
            StaticKnob::EdgeThickness => 10,
            StaticKnob::EdgeScale => 11,
            StaticKnob::SolidLineColor => 12,
            StaticKnob::ComposeMode => 13,
            StaticKnob::LineStyle => 14,
            StaticKnob::BgColor => 15,
            StaticKnob::Model => 16,
            StaticKnob::ChainMode => 17,
        }
    }

    /// Bit position of an adjustment in a `KnobSet`.
    pub fn ordinal(self) -> (r: u32)
        ensures
            r == self.position(),
    {
        match self {
            StaticKnob::Gamma => 0,
            StaticKnob::Threshold => 1,
            StaticKnob::EdgeShift => 2,
            StaticKnob::RefineEdges => 3,
            StaticKnob::GuidedRadius => 4,
            StaticKnob::GuidedEpsilon => 5,
            StaticKnob::Feather => 6,
            StaticKnob::FillStyle => 7,
            StaticKnob::BgEffect => 8,
            StaticKnob::LineStrength => 9,
            StaticKnob::EdgeThickness => 10,
            StaticKnob::EdgeScale => 11,
            StaticKnob::SolidLineColor => 12,
            StaticKnob::ComposeMode => 13,
            StaticKnob::LineStyle => 14,
            StaticKnob::BgColor => 15,
            StaticKnob::Model => 16,
            StaticKnob::ChainMode => 17,
        }
    }
}

/// The table of all adjustments holds each one at its own bit position.
pub proof fn all_knobs_stand_at_their_position(k: StaticKnob)
    ensures
        k.position() < 18,
        StaticKnob::ALL[k.position() as int] == k,
{
}

/// Change of the line mode. What it needs depends on the cached edge tensor.
#[derive(Clone, Copy, Debug, PartialEq, Eq, Structural)]
pub struct LineModeChange {
    pub from: LineMode,
    pub to: LineMode,
}

/// Set of adjustments, one bit each.
#[derive(Clone, Copy, Debug, PartialEq, Eq, Structural)]
pub struct KnobSet {
    mask: u32,
}

impl KnobSet {
    #[verifier::type_invariant]
    spec fn only_known_bits(self) -> bool {
        self.mask < 0x4_0000
    }

    /// Whether the adjustment is a member.
    pub closed spec fn has(self, k: StaticKnob) -> bool {
        (self.mask >> k.position()) & 1 == 1
    }

    /// The members as a mathematical set.
    pub open spec fn view(self) -> Set<StaticKnob> {
        Set::new(|k: StaticKnob| self.has(k))
    }

    /// Adds an adjustment.
    pub fn insert(&mut self, k: StaticKnob)
        ensures
            final(self)@ == old(self)@.insert(k),
    {
        proof {
            use_type_invariant(&*self);
        }
        let ghost before = *self;
        let o: u32 = k.ordinal();
        let m: u32 = self.mask;
        proof {
            assert(forall|j: u32|
                j < 18 && o < 18 ==> (#[trigger] ((m | (1u32 << o)) >> j) & 1 == 1) == ((m >> j) & 1
                    == 1 || j == o)) by (bit_vector);
            assert(m < 0x4_0000 && o < 18 ==> (m | (1u32 << o)) < 0x4_0000) by (bit_vector);
        }
        *self = KnobSet { mask: m | (1u32 << o) };
        proof {
            assert forall|j: StaticKnob| self.has(j) == (before.has(j) || j == k) by {
                let p = j.position();
                assert(p < 18);
                assert(((m | (1u32 << o)) >> p) & 1 == 1 <==> ((m >> p) & 1 == 1 || p == o));
                assert(p == o ==> j == k);
            }
            assert(self@ =~= before@.insert(k));
        }
    }

    /// Whether the adjustment is a member.
    pub fn contains(self, k: StaticKnob) -> (r: bool)
        ensures
            r == self@.contains(k),
    {
        (self.mask >> k.ordinal()) & 1 == 1
    }

    /// Whether there is no member.
    pub fn is_empty(self) -> (r: bool)
        ensures
            r == (self@ == Set::<StaticKnob>::empty()),
    {
        proof {
            use_type_invariant(&self);
            let m = self.mask;
            if m == 0 {
                assert(forall|j: u32| j < 18 ==> (#[trigger] (0u32 >> j)) & 1 != 1) by (bit_vector);
                assert(self@ =~= Set::<StaticKnob>::empty());
            } else {
                assert(m != 0 && m < 0x4_0000 ==> (m >> 0) & 1 == 1 || (m >> 1) & 1 == 1 || (m >> 2)
                    & 1 == 1 || (m >> 3) & 1 == 1 || (m >> 4) & 1 == 1 || (m >> 5) & 1 == 1 || (m
                    >> 6) & 1 == 1 || (m >> 7) & 1 == 1 || (m >> 8) & 1 == 1 || (m >> 9) & 1 == 1
                    || (m >> 10) & 1 == 1 || (m >> 11) & 1 == 1 || (m >> 12) & 1 == 1 || (m >> 13)
                    & 1 == 1 || (m >> 14) & 1 == 1 || (m >> 15) & 1 == 1 || (m >> 16) & 1 == 1 || (m
                    >> 17) & 1 == 1) by (bit_vector);
                let p: u32 = choose|p: u32| p < 18 && (#[trigger] (m >> p)) & 1 == 1;
                let k = StaticKnob::ALL[p as int];
                assert(k.position() == p);
                assert(self@.contains(k));
            }
        }
        self.mask == 0
    }
}

impl Default for KnobSet {
    /// The empty set.
    fn default() -> (r: KnobSet)
        ensures
            r@ == Set::<StaticKnob>::empty(),
    {
        let r = KnobSet { mask: 0 };
        proof {
            assert(forall|j: u32| j < 18 ==> (#[trigger] (0u32 >> j)) & 1 != 1) by (bit_vector);
            assert(r@ =~= Set::<StaticKnob>::empty());
        }
        r
    }
}

/// Which cached tensors a change makes stale.
#[derive(Clone, Copy, Debug, PartialEq, Eq, Structural)]
pub enum CacheImpact {
    Nothing,
    EdgeCache,
    SegCache,
    Both,
}

impl CacheImpact {
    /// Whether the segmentation tensor becomes stale.
    pub open spec fn drops_seg(self) -> bool {
        self == CacheImpact::SegCache || self == CacheImpact::Both
    }

    /// Whether the edge tensor becomes stale.
    pub open spec fn drops_edge(self) -> bool {
        self == CacheImpact::EdgeCache || self == CacheImpact::Both
    }

    /// The impact that drops just the given tensors.
    pub open spec fn dropping(seg: bool, edge: bool) -> CacheImpact {
        if seg && edge {
            CacheImpact::Both
        } else if seg {
            CacheImpact::SegCache
        } else if edge {
            CacheImpact::EdgeCache
        } else {
            CacheImpact::Nothing
        }
    }

    /// Combined impact: a tensor is dropped when either side drops it.
    pub open spec fn merged(self, other: CacheImpact) -> CacheImpact {
        CacheImpact::dropping(
            self.drops_seg() || other.drops_seg(),
            self.drops_edge() || other.drops_edge(),
        )
    }

    /// Combines the impacts of several adjustments made at once.
    pub fn union(self, other: CacheImpact) -> (r: CacheImpact)
        ensures
            r == self.merged(other),
    {
        match (self, other) {
            (CacheImpact::Both, _) => CacheImpact::Both,
            (_, CacheImpact::Both) => CacheImpact::Both,
            (CacheImpact::SegCache, CacheImpact::EdgeCache) => CacheImpact::Both,
            (CacheImpact::EdgeCache, CacheImpact::SegCache) => CacheImpact::Both,
            (CacheImpact::SegCache, _) => CacheImpact::SegCache,
            (_, CacheImpact::SegCache) => CacheImpact::SegCache,
            (CacheImpact::EdgeCache, _) => CacheImpact::EdgeCache,
            (_, CacheImpact::EdgeCache) => CacheImpact::EdgeCache,
            (CacheImpact::Nothing, CacheImpact::Nothing) => CacheImpact::Nothing,
        }
    }
}

/// Combining impacts does not depend on order or grouping, and combining an
/// impact with itself or with nothing changes nothing.
pub proof fn cache_impact_union_is_a_join(a: CacheImpact, b: CacheImpact, c: CacheImpact)
    ensures
        a.merged(b) == b.merged(a),
        a.merged(b).merged(c) == a.merged(b.merged(c)),
        a.merged(a) == a,
        a.merged(CacheImpact::Nothing) == a,
{
}

/// How a change reaches the screen, cheapest first.
#[derive(Clone, Copy, Debug, PartialEq, Eq, Structural)]
pub enum DispatchKind {
    Nothing,
    Render,
    LivePreviewMask,
    LivePreviewEdge,
    SubprocessAddEdge,
    SubprocessFullPipeline,
}

impl DispatchKind {
    /// Relative cost of a dispatch.
    pub open spec fn weight(self) -> int {
        match self {
            DispatchKind::Nothing => 0,
            DispatchKind::Render => 1,
            DispatchKind::LivePreviewMask => 2,
            DispatchKind::LivePreviewEdge => 2,
            DispatchKind::SubprocessAddEdge => 3,
            DispatchKind::SubprocessFullPipeline => 4,
        }
    }

    /// The dispatch that covers both: the costlier, and of the two previews the
    /// mask preview.
    pub open spec fn stronger(self, other: DispatchKind) -> DispatchKind {
        if self.weight() > other.weight() {
            self
        } else if self.weight() < other.weight() {
            other
        } else if self == DispatchKind::LivePreviewMask {
            self
        } else {
            other
        }
    }

    /// Relative cost of a dispatch.
    fn cost(self) -> (r: u8)
        ensures
            r == self.weight(),
    {
        match self {
            DispatchKind::Nothing => 0,
            DispatchKind::Render => 1,
            DispatchKind::LivePreviewMask => 2,
            DispatchKind::LivePreviewEdge => 2,
            DispatchKind::SubprocessAddEdge => 3,
            DispatchKind::SubprocessFullPipeline => 4,
        }
    }

    /// The stronger of two dispatches. A mask preview redraws the lines too, so
    /// it wins over an edge preview.
    pub fn max(self, other: DispatchKind) -> (r: DispatchKind)
        ensures
            r == self.stronger(other),
    {
        match (self, other) {
            (DispatchKind::LivePreviewMask, DispatchKind::LivePreviewEdge) => {
                DispatchKind::LivePreviewMask
            },
            (DispatchKind::LivePreviewEdge, DispatchKind::LivePreviewMask) => {
                DispatchKind::LivePreviewMask
            },
            _ => {
                if self.cost() >= other.cost() {
                    self
                } else {
                    other
                }
            },
        }
    }
}

/// Taking the stronger dispatch does not depend on order or grouping and never
/// weakens either side.
pub proof fn dispatch_max_is_a_join(a: DispatchKind, b: DispatchKind, c: DispatchKind)
    ensures
        a.stronger(b) == b.stronger(a),
        a.stronger(b).stronger(c) == a.stronger(b.stronger(c)),
        a.stronger(a) == a,
        a.stronger(DispatchKind::Nothing) == a,
        a.stronger(b).weight() >= a.weight(),
        a.stronger(b).weight() >= b.weight(),
        a.stronger(b) == a || a.stronger(b) == b,
{
}

/// Routing of one adjustment.
#[derive(Clone, Copy, Debug, PartialEq, Eq, Structural)]
pub struct KnobSpec {
    pub tier: RequiredTier,
    pub cache_impact: CacheImpact,
    pub dispatch: DispatchKind,
    /// Whether committing the change fires its dispatch at once.
    pub auto_trigger_on_commit: bool,
}

/// Whether the adjustment is applied to the cached segmentation.
pub open spec fn is_mask_knob(knob: StaticKnob) -> bool {
    knob == StaticKnob::Gamma || knob == StaticKnob::Threshold || knob == StaticKnob::EdgeShift
        || knob == StaticKnob::RefineEdges || knob == StaticKnob::GuidedRadius || knob
        == StaticKnob::GuidedEpsilon || knob == StaticKnob::Feather || knob == StaticKnob::FillStyle
        || knob == StaticKnob::BgEffect
}

/// Whether the adjustment is applied to the cached edges.
pub open spec fn is_edge_knob(knob: StaticKnob) -> bool {
    knob == StaticKnob::LineStrength || knob == StaticKnob::EdgeThickness || knob
        == StaticKnob::EdgeScale || knob == StaticKnob::SolidLineColor || knob
        == StaticKnob::ComposeMode || knob == StaticKnob::LineStyle
}

/// Routing table of the adjustments.
pub open spec fn routing(knob: StaticKnob) -> KnobSpec {
    if is_mask_knob(knob) {
        KnobSpec {
            tier: RequiredTier::MaskRerun,
            cache_impact: CacheImpact::Nothing,
            dispatch: DispatchKind::LivePreviewMask,
            auto_trigger_on_commit: true,
        }
    } else if is_edge_knob(knob) {
        KnobSpec {
            tier: RequiredTier::EdgeRerun,
            cache_impact: CacheImpact::Nothing,
            dispatch: DispatchKind::LivePreviewEdge,
            auto_trigger_on_commit: true,
        }
    } else if knob == StaticKnob::BgColor {
        KnobSpec {
            tier: RequiredTier::CompositeOnly,
            cache_impact: CacheImpact::Nothing,
            dispatch: DispatchKind::Render,
            auto_trigger_on_commit: true,
        }
    } else {
        KnobSpec {
            tier: RequiredTier::FullPipeline,
            cache_impact: if knob == StaticKnob::Model {
                CacheImpact::SegCache
            } else {
                CacheImpact::Both
            },
            dispatch: DispatchKind::SubprocessFullPipeline,
            auto_trigger_on_commit: false,
        }
    }
}

/// Routing of an adjustment.
pub fn spec(knob: StaticKnob) -> (r: KnobSpec)
    ensures
        r == routing(knob),
{
    match knob {
        StaticKnob::Gamma
        | StaticKnob::Threshold
        | StaticKnob::EdgeShift
        | StaticKnob::RefineEdges
        | StaticKnob::GuidedRadius
        | StaticKnob::GuidedEpsilon
        | StaticKnob::Feather
        | StaticKnob::FillStyle
        | StaticKnob::BgEffect => KnobSpec {
            tier: RequiredTier::MaskRerun,
            cache_impact: CacheImpact::Nothing,
            dispatch: DispatchKind::LivePreviewMask,
            auto_trigger_on_commit: true,
        },
        StaticKnob::LineStrength
        | StaticKnob::EdgeThickness
        | StaticKnob::EdgeScale
        | StaticKnob::SolidLineColor
        | StaticKnob::ComposeMode
        | StaticKnob::LineStyle => KnobSpec {
            tier: RequiredTier::EdgeRerun,
            cache_impact: CacheImpact::Nothing,
            dispatch: DispatchKind::LivePreviewEdge,
            auto_trigger_on_commit: true,
        },
        StaticKnob::BgColor => KnobSpec {
            tier: RequiredTier::CompositeOnly,
            cache_impact: CacheImpact::Nothing,
            dispatch: DispatchKind::Render,
            auto_trigger_on_commit: true,
        },
        StaticKnob::Model => KnobSpec {
            tier: RequiredTier::FullPipeline,
            cache_impact: CacheImpact::SegCache,
            dispatch: DispatchKind::SubprocessFullPipeline,
            auto_trigger_on_commit: false,
        },
        StaticKnob::ChainMode => KnobSpec {
            tier: RequiredTier::FullPipeline,
            cache_impact: CacheImpact::Both,
            dispatch: DispatchKind::SubprocessFullPipeline,
            auto_trigger_on_commit: false,
        },
    }
}

/// The dispatch that a tier calls for.
pub open spec fn dispatch_of_tier(tier: RequiredTier) -> DispatchKind {
    match tier {
        RequiredTier::Skip => DispatchKind::Nothing,
        RequiredTier::CompositeOnly => DispatchKind::Render,
        RequiredTier::EdgeRerun => DispatchKind::LivePreviewEdge,
        RequiredTier::MaskRerun => DispatchKind::LivePreviewMask,
        RequiredTier::AddEdgeInference => DispatchKind::SubprocessAddEdge,
        RequiredTier::FullPipeline => DispatchKind::SubprocessFullPipeline,
    }
}

/// Every adjustment needs some rerun, its dispatch is the one of its tier, and
/// only an adjustment that runs the whole pipeline drops a cache or waits for
/// the user.
pub proof fn routing_is_consistent(knob: StaticKnob)
    ensures
        routing(knob).tier != RequiredTier::Skip,
        routing(knob).dispatch == dispatch_of_tier(routing(knob).tier),
        routing(knob).cache_impact == CacheImpact::Nothing <==> routing(knob).tier
            != RequiredTier::FullPipeline,
        routing(knob).auto_trigger_on_commit <==> routing(knob).tier != RequiredTier::FullPipeline,
{
}

/// Routing of a line-mode change. The edge detector sees a different picture in
/// the two line modes, so switching between them drops its tensor; switching
/// lines off keeps it.
pub open spec fn line_mode_routing(change: LineModeChange, cached_edge: bool) -> KnobSpec {
    if change.from == change.to {
        KnobSpec {
            tier: RequiredTier::Skip,
            cache_impact: CacheImpact::Nothing,
            dispatch: DispatchKind::Nothing,
            auto_trigger_on_commit: true,
        }
    } else if change.to == LineMode::Off && change.from == LineMode::SubjectOutline || change.from
        == LineMode::Off && change.to == LineMode::SubjectOutline && cached_edge {
        KnobSpec {
            tier: RequiredTier::MaskRerun,
            cache_impact: CacheImpact::Nothing,
            dispatch: DispatchKind::LivePreviewMask,
            auto_trigger_on_commit: true,
        }
    } else if change.from == LineMode::Off && change.to == LineMode::SubjectOutline {
        KnobSpec {
            tier: RequiredTier::AddEdgeInference,
            cache_impact: CacheImpact::Nothing,
            dispatch: DispatchKind::SubprocessAddEdge,
            auto_trigger_on_commit: true,
        }
    } else {
        KnobSpec {
            tier: RequiredTier::FullPipeline,
            cache_impact: if change.to == LineMode::Off {
                CacheImpact::Nothing
            } else {
                CacheImpact::EdgeCache
            },
            dispatch: DispatchKind::SubprocessFullPipeline,
            auto_trigger_on_commit: true,
        }
    }
}

/// Routing of a line-mode change. With the edge tensor in memory, turning the
/// outline on only recomposes; without it the edge detector runs on the cached
/// segmentation.
pub fn line_mode_spec(change: LineModeChange, cached_edge: bool) -> (r: KnobSpec)
    ensures
        r == line_mode_routing(change, cached_edge),
{
    match (change.from, change.to) {
        (LineMode::Off, LineMode::Off)
        | (LineMode::EdgesOnly, LineMode::EdgesOnly)
        | (LineMode::SubjectOutline, LineMode::SubjectOutline) => KnobSpec {
            tier: RequiredTier::Skip,
            cache_impact: CacheImpact::Nothing,
            dispatch: DispatchKind::Nothing,
            auto_trigger_on_commit: true,
        },
        (LineMode::Off, LineMode::SubjectOutline) => {
            if cached_edge {
                KnobSpec {
                    tier: RequiredTier::MaskRerun,
                    cache_impact: CacheImpact::Nothing,
                    dispatch: DispatchKind::LivePreviewMask,
                    auto_trigger_on_commit: true,
                }
            } else {
                KnobSpec {
                    tier: RequiredTier::AddEdgeInference,
                    cache_impact: CacheImpact::Nothing,
                    dispatch: DispatchKind::SubprocessAddEdge,
                    auto_trigger_on_commit: true,
                }
            }
        },
        (LineMode::SubjectOutline, LineMode::Off) => KnobSpec {
            tier: RequiredTier::MaskRerun,
            cache_impact: CacheImpact::Nothing,
            dispatch: DispatchKind::LivePreviewMask,
            auto_trigger_on_commit: true,
        },
        (LineMode::EdgesOnly, LineMode::Off) => KnobSpec {
            tier: RequiredTier::FullPipeline,
            cache_impact: CacheImpact::Nothing,
            dispatch: DispatchKind::SubprocessFullPipeline,
            auto_trigger_on_commit: true,
        },
        (LineMode::Off, LineMode::EdgesOnly)
        | (LineMode::SubjectOutline, LineMode::EdgesOnly)
        | (LineMode::EdgesOnly, LineMode::SubjectOutline) => KnobSpec {
            tier: RequiredTier::FullPipeline,
            cache_impact: CacheImpact::EdgeCache,
            dispatch: DispatchKind::SubprocessFullPipeline,
            auto_trigger_on_commit: true,
        },
    }
}

/// Staying in a mode needs nothing, a mode change never drops the segmentation,
/// every change pairs its tier with that tier's dispatch, and a cached edge
/// tensor only ever makes a change cheaper.
pub proof fn line_mode_routing_is_consistent(change: LineModeChange, cached_edge: bool)
    ensures
        line_mode_routing(change, cached_edge).tier == RequiredTier::Skip <==> change.from
            == change.to,
        line_mode_routing(change, cached_edge).dispatch == dispatch_of_tier(
            line_mode_routing(change, cached_edge).tier,
        ),
        !line_mode_routing(change, cached_edge).cache_impact.drops_seg(),
        line_mode_routing(change, cached_edge).cache_impact == line_mode_routing(
            change,
            !cached_edge,
        ).cache_impact,
        line_mode_routing(change, true).dispatch.weight() <= line_mode_routing(
            change,
            false,
        ).dispatch.weight(),
        change.to == LineMode::Off ==> !line_mode_routing(
            change,
            cached_edge,
        ).cache_impact.drops_edge(),
{
}

/// Routing of a change of the input transform.
pub open spec fn input_transform_routing(cached_seg: bool) -> KnobSpec {
    KnobSpec {
        tier: if cached_seg {
            RequiredTier::AddEdgeInference
        } else {
            RequiredTier::FullPipeline
        },
        cache_impact: CacheImpact::EdgeCache,
        dispatch: if cached_seg {
            DispatchKind::SubprocessAddEdge
        } else {
            DispatchKind::SubprocessFullPipeline
        },
        auto_trigger_on_commit: true,
    }
}

/// Routing of a change of the input transform: a cached segmentation is reused
/// and only the edge detector runs again.
pub fn input_transform_spec(cached_seg: bool) -> (r: KnobSpec)
    ensures
        r == input_transform_routing(cached_seg),
{
    if cached_seg {
        KnobSpec {
            tier: RequiredTier::AddEdgeInference,
            cache_impact: CacheImpact::EdgeCache,
            dispatch: DispatchKind::SubprocessAddEdge,
            auto_trigger_on_commit: true,
        }
    } else {
        KnobSpec {
            tier: RequiredTier::FullPipeline,
            cache_impact: CacheImpact::EdgeCache,
            dispatch: DispatchKind::SubprocessFullPipeline,
            auto_trigger_on_commit: true,
        }
    }
}

/// The line mode that a recipe's two inference flags stand for.
pub open spec fn mode_of_flags(uses_seg: bool, uses_edge: bool) -> LineMode {
    if !uses_edge {
        LineMode::Off
    } else if uses_seg {
        LineMode::SubjectOutline
    } else {
        LineMode::EdgesOnly
    }
}

/// The line mode a recipe was made in.
pub open spec fn recipe_mode(r: ProcessingRecipe) -> LineMode {
    mode_of_flags(r.inference.uses_segmentation, r.inference.uses_edge_detection)
}

/// Impact of a difference between two recipes: the combined impact of every
/// part that differs.
pub open spec fn diff_impact(a: ProcessingRecipe, b: ProcessingRecipe) -> CacheImpact {
    let chain = if a.was_chain != b.was_chain {
        routing(StaticKnob::ChainMode).cache_impact
    } else {
        CacheImpact::Nothing
    };
    let model = if a.inference.model != b.inference.model {
        routing(StaticKnob::Model).cache_impact
    } else {
        CacheImpact::Nothing
    };
    let transform = if a.inference.input_transform != b.inference.input_transform {
        input_transform_routing(false).cache_impact
    } else {
        CacheImpact::Nothing
    };
    let mode = line_mode_routing(
        LineModeChange { from: recipe_mode(a), to: recipe_mode(b) },
        false,
    ).cache_impact;
    chain.merged(model).merged(transform).merged(mode)
}

/// Caches that stop being valid between two recipes: only those whose input
/// changed.
pub fn cache_impact_for_recipe_diff(old_recipe: &ProcessingRecipe, new_recipe: &ProcessingRecipe) -> (r:
    CacheImpact)
    ensures
        r == diff_impact(*old_recipe, *new_recipe),
{
    let mut impact = CacheImpact::Nothing;
    if old_recipe.was_chain != new_recipe.was_chain {
        impact = impact.union(spec(StaticKnob::ChainMode).cache_impact);
    }
    if old_recipe.inference.model != new_recipe.inference.model {
        impact = impact.union(spec(StaticKnob::Model).cache_impact);
    }
    if old_recipe.inference.input_transform != new_recipe.inference.input_transform {
        impact = impact.union(input_transform_spec(false).cache_impact);
    }
    let old_mode = line_mode_from_flags(
        old_recipe.inference.uses_segmentation,
        old_recipe.inference.uses_edge_detection,
    );
    let new_mode = line_mode_from_flags(
        new_recipe.inference.uses_segmentation,
        new_recipe.inference.uses_edge_detection,
    );
    if old_mode != new_mode {
        let change = LineModeChange { from: old_mode, to: new_mode };
        impact = impact.union(line_mode_spec(change, false).cache_impact);
    }
    impact
}

/// The line mode that a recipe's two inference flags stand for.
fn line_mode_from_flags(uses_seg: bool, uses_edge: bool) -> (r: LineMode)
    ensures
        r == mode_of_flags(uses_seg, uses_edge),
{
    match (uses_seg, uses_edge) {
        (_, false) => LineMode::Off,
        (false, true) => LineMode::EdgesOnly,
        (true, true) => LineMode::SubjectOutline,
    }
}

/// A recipe compared with itself invalidates nothing.
pub proof fn same_recipe_keeps_every_cache(a: ProcessingRecipe)
    ensures
        diff_impact(a, a) == CacheImpact::Nothing,
{
}

/// An adjustment that keeps inference as it was invalidates nothing: the mask,
/// line and compositing parts of a recipe never touch a cached tensor.
pub proof fn postprocess_knobs_keep_every_cache(a: ProcessingRecipe, b: ProcessingRecipe)
    requires
        a.inference == b.inference,
        a.was_chain == b.was_chain,
    ensures
        diff_impact(a, b) == CacheImpact::Nothing,
{
}

/// Impact is additive: the impact of changing chain mode, model and input
/// transform together is the combination of the impacts of changing each alone.
pub proof fn cache_impact_is_additive(a: ProcessingRecipe, b: ProcessingRecipe)
    requires
        recipe_mode(a) == recipe_mode(b),
    ensures
        ({
            let chain = ProcessingRecipe { was_chain: b.was_chain, ..a };
            let model = ProcessingRecipe {
                inference: crate::pipeline::InferenceRecipe {
                    model: b.inference.model,
                    ..a.inference
                },
                ..a
            };
            let transform = ProcessingRecipe {
                inference: crate::pipeline::InferenceRecipe {
                    input_transform: b.inference.input_transform,
                    ..a.inference
                },
                ..a
            };
            diff_impact(a, b) == diff_impact(a, chain).merged(diff_impact(a, model)).merged(
                diff_impact(a, transform),
            )
        }),
{
}

/// A pure line-mode change has the impact its own routing gives.
pub proof fn line_mode_impact_matches_recipe_diff(a: ProcessingRecipe, b: ProcessingRecipe, cached_edge: bool)
    requires
        a.was_chain == b.was_chain,
        a.inference.model == b.inference.model,
        a.inference.input_transform == b.inference.input_transform,
    ensures
        diff_impact(a, b) == line_mode_routing(
            LineModeChange { from: recipe_mode(a), to: recipe_mode(b) },
            cached_edge,
        ).cache_impact,
{
}

/// A pure change of the input transform has the impact its own routing gives.
pub proof fn input_transform_impact_matches_recipe_diff(
    a: ProcessingRecipe,
    b: ProcessingRecipe,
    cached_seg: bool,
)
    requires
        a.was_chain == b.was_chain,
        a.inference.model == b.inference.model,
        a.inference.input_transform != b.inference.input_transform,
        recipe_mode(a) == recipe_mode(b),
    ensures
        diff_impact(a, b) == input_transform_routing(cached_seg).cache_impact,
{
}

/// Whether two settings differ in nothing but the place of one adjustment. The model and
/// chain mode are no part of the settings.
pub open spec fn turned(knob: StaticKnob, a: ItemSettings, b: ItemSettings) -> bool {
    match knob {
        StaticKnob::Gamma => b == (ItemSettings { gamma: b.gamma, ..a }),
        StaticKnob::Threshold => b == (ItemSettings { threshold: b.threshold, ..a }),
        StaticKnob::EdgeShift => b == (ItemSettings { edge_shift: b.edge_shift, ..a }),
        StaticKnob::RefineEdges => b == (ItemSettings { refine_edges: b.refine_edges, ..a }),
        StaticKnob::GuidedRadius => b == (ItemSettings { guided_radius: b.guided_radius, ..a }),
        StaticKnob::GuidedEpsilon => b == (ItemSettings { guided_epsilon: b.guided_epsilon, ..a }),
        StaticKnob::Feather => b == (ItemSettings { feather: b.feather, ..a }),
        StaticKnob::FillStyle => b == (ItemSettings { fill_style: b.fill_style, ..a }),
        StaticKnob::BgEffect => b == (ItemSettings { bg_effect: b.bg_effect, ..a }),
        StaticKnob::LineStrength => b == (ItemSettings { line_strength: b.line_strength, ..a }),
        StaticKnob::EdgeThickness => b == (ItemSettings { edge_thickness: b.edge_thickness, ..a }),
        StaticKnob::EdgeScale => b == (ItemSettings { edge_scale: b.edge_scale, ..a }),
        StaticKnob::SolidLineColor => b == (ItemSettings { solid_line_color: b.solid_line_color, ..a }),
        StaticKnob::ComposeMode => b == (ItemSettings { compose_mode: b.compose_mode, ..a }),
        StaticKnob::LineStyle => b == (ItemSettings { line_style: b.line_style, ..a }),
        StaticKnob::BgColor => b == (ItemSettings { bg: b.bg, ..a }),
        StaticKnob::Model | StaticKnob::ChainMode => b == a,
    }
}

/// Turning an adjustment reruns the stage that its knob belongs to: whatever part of the
/// recipe changes is one that the tier of the adjustment makes anew, and no more is made
/// anew than can change.
pub proof fn adjustments_rerun_their_stage(
    knob: StaticKnob,
    a: ItemSettings,
    b: ItemSettings,
    m: ModelKind,
    n: ModelKind,
    c: bool,
    d: bool,
)
    requires
        turned(knob, a, b),
        m != n ==> knob == StaticKnob::Model,
        c != d ==> knob == StaticKnob::ChainMode,
    ensures
        ({
            let p = a.recipe(m, c);
            let q = b.recipe(n, d);
            let tier = routing(knob).tier;
            &&& p.inference != q.inference || p.was_chain != q.was_chain ==> tier
                == RequiredTier::FullPipeline
            &&& p.mask != q.mask ==> tier == RequiredTier::MaskRerun
            &&& p.edge != q.edge ==> tier == RequiredTier::EdgeRerun
            &&& p.composite.bg_color != q.composite.bg_color ==> tier
                == RequiredTier::CompositeOnly
            &&& tier != RequiredTier::FullPipeline ==> p.inference == q.inference && p.was_chain
                == q.was_chain
        }),
{
}

/// A cached segmentation is dropped exactly where another model or chain mode would give
/// another one, and cached edges where the edge detector would see another picture:
/// another chain mode, another input transform, or a line mode that starts from another
/// picture. Switching lines off keeps them for later.
pub proof fn stale_caches_are_dropped(a: ProcessingRecipe, b: ProcessingRecipe)
    ensures
        diff_impact(a, b).drops_seg() <==> a.was_chain != b.was_chain || a.inference.model
            != b.inference.model,
        a.was_chain != b.was_chain ==> diff_impact(a, b).drops_edge(),
        a.inference.input_transform != b.inference.input_transform ==> diff_impact(
            a,
            b,
        ).drops_edge(),
        a.inference.uses_edge_detection && b.inference.uses_edge_detection
            && a.inference.uses_segmentation != b.inference.uses_segmentation ==> diff_impact(
            a,
            b,
        ).drops_edge(),
        diff_impact(a, b).drops_edge() ==> a.was_chain != b.was_chain
            || a.inference.input_transform != b.inference.input_transform || (
        b.inference.uses_edge_detection && (a.inference.uses_segmentation
            != b.inference.uses_segmentation || a.inference.uses_edge_detection
            != b.inference.uses_edge_detection)),
{
}

/// Lines are never drawn without edges: a mode that draws them, entered from one that
/// does not, runs the edge detector unless its edges are at hand. Entering or leaving a
/// mode without the subject runs everything, and taking the outline off an image needs
/// no inference.
pub proof fn lines_need_edges(from: LineMode, to: LineMode, cached_edge: bool)
    ensures
        ({
            let tier = line_mode_routing(LineModeChange { from, to }, cached_edge).tier;
            &&& from == LineMode::Off && to != LineMode::Off && !cached_edge ==> tier
                == RequiredTier::AddEdgeInference || tier == RequiredTier::FullPipeline
            &&& from == LineMode::Off && to == LineMode::SubjectOutline && cached_edge ==> tier
                == RequiredTier::MaskRerun
            &&& from == LineMode::Off && to == LineMode::SubjectOutline && !cached_edge ==> tier
                == RequiredTier::AddEdgeInference
            &&& from != to && (from == LineMode::EdgesOnly || to == LineMode::EdgesOnly) ==> tier
                == RequiredTier::FullPipeline
            &&& from == LineMode::SubjectOutline && to == LineMode::Off ==> tier
                == RequiredTier::MaskRerun
        }),
{
}

/// A change of the input transform runs the edge detector again and drops its old edges;
/// a segmentation at hand spares everything else.
pub proof fn transforms_rerun_the_edge_detector(cached_seg: bool)
    ensures
        input_transform_routing(cached_seg).cache_impact.drops_edge(),
        !input_transform_routing(cached_seg).cache_impact.drops_seg(),
        input_transform_routing(cached_seg).tier == RequiredTier::AddEdgeInference <==> cached_seg,
        !cached_seg ==> input_transform_routing(cached_seg).tier == RequiredTier::FullPipeline,
        input_transform_routing(cached_seg).dispatch == dispatch_of_tier(
            input_transform_routing(cached_seg).tier,
        ),
{
}

/// Another model drops the segmentation and keeps the edges, which it has no part in;
/// another chain mode drops both. Both wait for the user.
pub proof fn costly_adjustments_wait(knob: StaticKnob)
    ensures
        !routing(knob).auto_trigger_on_commit <==> knob == StaticKnob::Model || knob
            == StaticKnob::ChainMode,
        routing(knob).cache_impact.drops_seg() <==> knob == StaticKnob::Model || knob
            == StaticKnob::ChainMode,
        routing(knob).cache_impact.drops_edge() <==> knob == StaticKnob::ChainMode,
{
}

/// Impacts drop what their names say.
pub proof fn impacts_drop_what_they_name(a: CacheImpact, b: CacheImpact)
    ensures
        a.merged(b).drops_seg() <==> a.drops_seg() || b.drops_seg(),
        a.merged(b).drops_edge() <==> a.drops_edge() || b.drops_edge(),
        a == CacheImpact::SegCache ==> a.drops_seg() && !a.drops_edge(),
        a == CacheImpact::EdgeCache ==> !a.drops_seg() && a.drops_edge(),
        a == CacheImpact::Both ==> a.drops_seg() && a.drops_edge(),
        a == CacheImpact::Nothing ==> !a.drops_seg() && !a.drops_edge(),
{
}

/// A recipe's two flags tell every line mode apart: lines alone run without the
/// segmentation, no lines without the edge detector.
pub proof fn flags_tell_line_modes_apart(mode: LineMode, uses_seg: bool, uses_edge: bool)
    ensures
        mode_of_flags(mode != LineMode::EdgesOnly, mode != LineMode::Off) == mode,
        mode_of_flags(uses_seg, uses_edge) is Off <==> !uses_edge,
        mode_of_flags(uses_seg, uses_edge) is SubjectOutline <==> uses_edge && uses_seg,
{
}

/// An impact drops a tensor exactly where it is asked to.
pub proof fn impacts_are_made_of_their_parts(seg: bool, edge: bool)
    ensures
        CacheImpact::dropping(seg, edge) is Both <==> seg && edge,
        CacheImpact::dropping(seg, edge) is SegCache <==> seg && !edge,
        CacheImpact::dropping(seg, edge) is EdgeCache <==> edge && !seg,
        CacheImpact::dropping(seg, edge) is Nothing <==> !seg && !edge,
{
}

/// Every adjustment but the two that the model or the edge detector sees works on a
/// cached segmentation or on cached edges, never on both.
pub proof fn stages_share_no_knob(knob: StaticKnob)
    ensures
        !(is_mask_knob(knob) && is_edge_knob(knob)),
        knob is Gamma || knob is Threshold || knob is EdgeShift || knob is RefineEdges
            || knob is GuidedRadius || knob is GuidedEpsilon || knob is Feather || knob is FillStyle
            || knob is BgEffect <==> is_mask_knob(knob),
        knob is LineStrength || knob is EdgeThickness || knob is EdgeScale || knob is SolidLineColor
            || knob is ComposeMode || knob is LineStyle <==> is_edge_knob(knob),
{
}

/// A new run covers everything, added lines cover every preview, and a mask preview
/// covers that of lines, which it redraws.
pub proof fn costlier_work_covers_the_rest(a: DispatchKind)
    ensures
        a.stronger(DispatchKind::SubprocessFullPipeline) is SubprocessFullPipeline,
        !(a is SubprocessFullPipeline) ==> a.stronger(
            DispatchKind::SubprocessAddEdge,
        ) is SubprocessAddEdge,
        a is LivePreviewEdge || a is Render || a is Nothing ==> a.stronger(
            DispatchKind::LivePreviewMask,
        ) is LivePreviewMask,
        a is Render || a is Nothing ==> a.stronger(
            DispatchKind::LivePreviewEdge,
        ) is LivePreviewEdge,
        a is Nothing ==> a.stronger(DispatchKind::Render) is Render,
{
}

} // verus!
