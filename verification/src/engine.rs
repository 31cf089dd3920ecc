//! The flexbox sizing and positioning algorithm.
//!
//! Layout runs over a snapshot of the node store. Every step is specified by
//! a spec function and the executable code is proved to return exactly what
//! the spec function says, so computed geometry is a pure function of the
//! tree, the styles, the measurements and the available space.
//!
//! The algorithm lays a container's in-flow children on a single main-axis
//! line (wrap modes are accepted as style tags but do not open new lines),
//! determines each child's flex basis, distributes free space by grow or
//! shrink weights with iterative clamp-and-freeze, inserts fixed gaps,
//! places the line per justify-content, sizes the cross axis with stretch
//! and per-item alignment, and recurses. Children with the excluded display
//! mode report a zero box, as do all their descendants, and contribute
//! nothing to sizing. Absolutely positioned children are taken out of the
//! flow and resolved against the parent's content box alone.
//!
//! All recursions are fuel-bounded by the store size; a store whose parent
//! links do not form a forest exhausts the fuel and the computation reports
//! failure instead of diverging.

use vstd::prelude::*;

use crate::layout::ComputedLayout;
use crate::num::{
    e_sadd, e_sclamp, e_sdivp, e_shalf, e_smax, e_smin, e_smul, e_spct, e_ssub, sadd, sclamp,
    sdivp, shalf, smax, smin, smul, spct, ssub,
};
use crate::style::{AlignContent, AlignItems, AlignSelf, Dim, Display, FlexDirection, FlexWrap, JustifyContent, Position};
use crate::tree::NodeData;

verus! {

/// Whether the slot of `id` holds a node.
pub open spec fn live_node(s: Seq<Option<NodeData>>, id: u32) -> bool {
    (id as int) < s.len() && s[id as int] is Some
}

/// The record of a live id.
pub open spec fn node_of(s: Seq<Option<NodeData>>, id: u32) -> NodeData
    recommends
        live_node(s, id),
{
    s[id as int]->0
}

/// Resolve a dimension against a definite base: an absolute length (clamped
/// non-negative), a percentage of the base, or nothing for auto.
pub open spec fn dim_px(d: Dim, base: i64) -> Option<i64> {
    match d {
        Dim::Length(v) => Some(smax(v, 0)),
        Dim::Percent(p) => Some(spct(base, p)),
        Dim::Auto => None,
    }
}

/// A minimum constraint usable without a definite base: absolute lengths
/// only, everything else unconstrained (0).
pub open spec fn min_len(d: Dim) -> i64 {
    match d {
        Dim::Length(v) => smax(v, 0),
        _ => 0,
    }
}

/// A maximum constraint usable without a definite base: absolute lengths
/// only, everything else unconstrained.
pub open spec fn max_len(d: Dim) -> i64 {
    match d {
        Dim::Length(v) => smax(v, 0),
        _ => i64::MAX,
    }
}

pub fn e_dim_px(d: &Dim, base: i64) -> (r: Option<i64>)
    ensures
        r == dim_px(*d, base),
{
    match d {
        Dim::Length(v) => Some(e_smax(*v, 0)),
        Dim::Percent(p) => Some(e_spct(base, *p)),
        Dim::Auto => None,
    }
}

fn e_min_len(d: &Dim) -> (r: i64)
    ensures
        r == min_len(*d),
{
    match d {
        Dim::Length(v) => e_smax(*v, 0),
        _ => 0,
    }
}

fn e_max_len(d: &Dim) -> (r: i64)
    ensures
        r == max_len(*d),
{
    match d {
        Dim::Length(v) => e_smax(*v, 0),
        _ => i64::MAX,
    }
}

/// The intrinsic (max-content) size of a node: the externally supplied
/// measurement for a measured leaf, zero for a bare leaf, and for a
/// container the gap-separated sum of in-flow child sizes along its main
/// axis and their maximum across it; explicit absolute sizes override, and
/// absolute min/max constraints clamp the result. Excluded nodes are zero.
/// `None` means the recursion ran out of fuel.
pub open spec fn spec_intrinsic(s: Seq<Option<NodeData>>, id: u32, fuel: nat) -> Option<(i64, i64)>
    decreases fuel, 1int, 0int,
{
    if fuel == 0 {
        None
    } else if !live_node(s, id) {
        Some((0i64, 0i64))
    } else {
        let nd = node_of(s, id);
        let st = nd.style;
        if st.display is Gone {
            Some((0i64, 0i64))
        } else {
            let kids = nd.children@;
            let horiz = st.flex_direction is Row || st.flex_direction is RowReverse;
            let gap = if horiz {
                st.column_gap
            } else {
                st.row_gap
            };
            let content_opt: Option<(i64, i64)> = if kids.len() == 0 {
                match nd.measure {
                    Some(m) => Some((smax(m.width, 0), smax(m.height, 0))),
                    None => Some((0i64, 0i64)),
                }
            } else {
                match spec_intrinsic_kids(s, kids, horiz, gap, fuel, 0) {
                    None => None,
                    Some(acc) => if horiz {
                        Some((acc.0, acc.1))
                    } else {
                        Some((acc.1, acc.0))
                    },
                }
            };
            match content_opt {
                None => None,
                Some(content) => {
                    let w0 = match st.width {
                        Dim::Length(v) => smax(v, 0),
                        _ => content.0,
                    };
                    let h0 = match st.height {
                        Dim::Length(v) => smax(v, 0),
                        _ => content.1,
                    };
                    Some(
                        (
                            sclamp(w0, min_len(st.min_width), max_len(st.max_width)),
                            sclamp(h0, min_len(st.min_height), max_len(st.max_height)),
                        ),
                    )
                },
            }
        }
    }
}

/// Accumulate `(main sum with gaps, cross max, in-flow count)` of the kids
/// from index `i` on.
pub open spec fn spec_intrinsic_kids(
    s: Seq<Option<NodeData>>,
    kids: Seq<u32>,
    horiz: bool,
    gap: i64,
    fuel: nat,
    i: int,
) -> Option<(i64, i64, i64)>
    decreases fuel, 0int, kids.len() - i,
{
    if fuel == 0 {
        None
    } else if i < 0 || i >= kids.len() {
        Some((0i64, 0i64, 0i64))
    } else {
        match spec_intrinsic_kids(s, kids, horiz, gap, fuel, i + 1) {
            None => None,
            Some(rest) => {
                let c = kids[i];
                if !live_node(s, c) {
                    Some(rest)
                } else {
                    let stc = node_of(s, c).style;
                    if stc.display is Gone || stc.position is Absolute {
                        Some(rest)
                    } else {
                        match spec_intrinsic(s, c, (fuel - 1) as nat) {
                            None => None,
                            Some(sz) => {
                                let ow = sadd(sadd(sz.0, stc.margin.left), stc.margin.right);
                                let oh = sadd(sadd(sz.1, stc.margin.top), stc.margin.bottom);
                                let om = if horiz {
                                    ow
                                } else {
                                    oh
                                };
                                let oc = if horiz {
                                    oh
                                } else {
                                    ow
                                };
                                let msum = if rest.2 > 0 {
                                    sadd(sadd(om, gap), rest.0)
                                } else {
                                    sadd(om, rest.0)
                                };
                                Some((msum, smax(oc, rest.1), sadd(rest.2, 1)))
                            },
                        }
                    }
                }
            },
        }
    }
}

fn e_intrinsic(nodes: &Vec<Option<NodeData>>, id: u32, fuel: usize) -> (r: Option<(i64, i64)>)
    ensures
        r == spec_intrinsic(nodes@, id, fuel as nat),
    decreases fuel as nat, 1int, 0int,
{
    if fuel == 0 {
        return None;
    }
    if !((id as usize) < nodes.len()) {
        return Some((0i64, 0i64));
    }
    let (st, has_measure, mw, mh, n_kids): (
        crate::style::Style,
        bool,
        i64,
        i64,
        usize,
    ) = match &nodes[id as usize] {
        None => {
            return Some((0i64, 0i64));
        },
        Some(nd) => (
            nd.style,
            nd.measure.is_some(),
            match nd.measure {
                Some(m) => m.width,
                None => 0,
            },
            match nd.measure {
                Some(m) => m.height,
                None => 0,
            },
            nd.children.len(),
        ),
    };
    if matches!(st.display, Display::Gone) {
        return Some((0i64, 0i64));
    }
    let horiz = matches!(st.flex_direction, FlexDirection::Row)
        || matches!(st.flex_direction, FlexDirection::RowReverse);
    let gap = if horiz {
        st.column_gap
    } else {
        st.row_gap
    };
    let content: (i64, i64) = if n_kids == 0 {
        if has_measure {
            (e_smax(mw, 0), e_smax(mh, 0))
        } else {
            (0i64, 0i64)
        }
    } else {
        match e_intrinsic_kids(nodes, id, horiz, gap, fuel, 0) {
            None => {
                return None;
            },
            Some(acc) => if horiz {
                (acc.0, acc.1)
            } else {
                (acc.1, acc.0)
            },
        }
    };
    let w0 = match st.width {
        Dim::Length(v) => e_smax(v, 0),
        _ => content.0,
    };
    let h0 = match st.height {
        Dim::Length(v) => e_smax(v, 0),
        _ => content.1,
    };
    Some(
        (
            e_sclamp(w0, e_min_len(&st.min_width), e_max_len(&st.max_width)),
            e_sclamp(h0, e_min_len(&st.min_height), e_max_len(&st.max_height)),
        ),
    )
}

/// Walks the child list of the (live) node `id` from index `i`.
fn e_intrinsic_kids(
    nodes: &Vec<Option<NodeData>>,
    id: u32,
    horiz: bool,
    gap: i64,
    fuel: usize,
    i: usize,
) -> (r: Option<(i64, i64, i64)>)
    requires
        live_node(nodes@, id),
    ensures
        r == spec_intrinsic_kids(nodes@, node_of(nodes@, id).children@, horiz, gap, fuel as nat, i as int),
    decreases fuel as nat, 0int, node_of(nodes@, id).children@.len() - i,
{
    if fuel == 0 {
        return None;
    }
    let n_kids = match &nodes[id as usize] {
        Some(nd) => nd.children.len(),
        None => 0,
    };
    if i >= n_kids {
        return Some((0i64, 0i64, 0i64));
    }
    let rest = match e_intrinsic_kids(nodes, id, horiz, gap, fuel, i + 1) {
        None => {
            return None;
        },
        Some(acc) => acc,
    };
    let c: u32 = match &nodes[id as usize] {
        Some(nd) => nd.children[i],
        None => 0,
    };
    if !((c as usize) < nodes.len()) {
        return Some(rest);
    }
    let stc = match &nodes[c as usize] {
        None => {
            return Some(rest);
        },
        Some(nd) => nd.style,
    };
    if matches!(stc.display, Display::Gone) || matches!(stc.position, Position::Absolute) {
        return Some(rest);
    }
    let sz = match e_intrinsic(nodes, c, fuel - 1) {
        None => {
            return None;
        },
        Some(v) => v,
    };
    let ow = e_sadd(e_sadd(sz.0, stc.margin.left), stc.margin.right);
    let oh = e_sadd(e_sadd(sz.1, stc.margin.top), stc.margin.bottom);
    let om = if horiz {
        ow
    } else {
        oh
    };
    let oc = if horiz {
        oh
    } else {
        ow
    };
    let msum = if rest.2 > 0 {
        e_sadd(e_sadd(om, gap), rest.0)
    } else {
        e_sadd(om, rest.0)
    };
    Some((msum, e_smax(oc, rest.1), e_sadd(rest.2, 1)))
}

/// Resolve a dimension with a fallback for auto.
pub open spec fn dim_or(d: Dim, base: i64, fb: i64) -> i64 {
    match dim_px(d, base) {
        Some(v) => v,
        None => fb,
    }
}

/// A minimum constraint against a definite base (auto means 0).
pub open spec fn dim_min(d: Dim, base: i64) -> i64 {
    match dim_px(d, base) {
        Some(v) => v,
        None => 0,
    }
}

/// A maximum constraint against a definite base (auto means unconstrained).
pub open spec fn dim_max(d: Dim, base: i64) -> i64 {
    match dim_px(d, base) {
        Some(v) => v,
        None => i64::MAX,
    }
}

fn e_dim_or(d: &Dim, base: i64, fb: i64) -> (r: i64)
    ensures
        r == dim_or(*d, base, fb),
{
    match e_dim_px(d, base) {
        Some(v) => v,
        None => fb,
    }
}

fn e_dim_min(d: &Dim, base: i64) -> (r: i64)
    ensures
        r == dim_min(*d, base),
{
    match e_dim_px(d, base) {
        Some(v) => v,
        None => 0,
    }
}

fn e_dim_max(d: &Dim, base: i64) -> (r: i64)
    ensures
        r == dim_max(*d, base),
{
    match e_dim_px(d, base) {
        Some(v) => v,
        None => i64::MAX,
    }
}

/// One in-flow child prepared for flex resolution.
#[derive(Clone, Copy, Debug, PartialEq, Eq, Structural)]
pub struct FlexItem {
    pub node: u32,
    pub basis: i64,
    pub grow: i64,
    pub shrink: i64,
    pub main_min: i64,
    pub main_max: i64,
    pub m_start: i64,
    pub m_end: i64,
    pub cross_auto: bool,
    pub cross_hypo: i64,
    pub cross_min: i64,
    pub cross_max: i64,
    pub cm_start: i64,
    pub cm_end: i64,
    pub align: AlignItems,
}

/// Build the in-flow items of a container, in child order: the flex basis is
/// the explicit flex-basis if not auto, else the explicit main size if not
/// auto, else the intrinsic main size; the hypothetical cross size likewise
/// falls back to the intrinsic cross size. `None` means out of fuel.
pub open spec fn spec_items(
    s: Seq<Option<NodeData>>,
    kids: Seq<u32>,
    horiz: bool,
    main_size: i64,
    cross_size: i64,
    parent_align: AlignItems,
    fuel: nat,
    i: int,
) -> Option<Seq<FlexItem>>
    decreases fuel, 0int, kids.len() - i,
{
    if fuel == 0 {
        None
    } else if i < 0 || i >= kids.len() {
        Some(Seq::<FlexItem>::empty())
    } else {
        let c = kids[i];
        let rest = spec_items(s, kids, horiz, main_size, cross_size, parent_align, fuel, i + 1);
        match rest {
            None => None,
            Some(items) => {
                if !live_node(s, c) {
                    Some(items)
                } else {
                    let stc = node_of(s, c).style;
                    if stc.display is Gone || stc.position is Absolute {
                        Some(items)
                    } else {
                        match spec_intrinsic(s, c, (fuel - 1) as nat) {
                            None => None,
                            Some(intr) => {
                                let intr_main = if horiz {
                                    intr.0
                                } else {
                                    intr.1
                                };
                                let intr_cross = if horiz {
                                    intr.1
                                } else {
                                    intr.0
                                };
                                let main_dim = if horiz {
                                    stc.width
                                } else {
                                    stc.height
                                };
                                let cross_dim = if horiz {
                                    stc.height
                                } else {
                                    stc.width
                                };
                                let basis = match dim_px(stc.flex_basis, main_size) {
                                    Some(b) => b,
                                    None => dim_or(main_dim, main_size, intr_main),
                                };
                                let it = FlexItem {
                                    node: c,
                                    basis,
                                    grow: smax(stc.flex_grow, 0),
                                    shrink: smax(stc.flex_shrink, 0),
                                    main_min: dim_min(
                                        if horiz {
                                            stc.min_width
                                        } else {
                                            stc.min_height
                                        },
                                        main_size,
                                    ),
                                    main_max: dim_max(
                                        if horiz {
                                            stc.max_width
                                        } else {
                                            stc.max_height
                                        },
                                        main_size,
                                    ),
                                    m_start: if horiz {
                                        stc.margin.left
                                    } else {
                                        stc.margin.top
                                    },
                                    m_end: if horiz {
                                        stc.margin.right
                                    } else {
                                        stc.margin.bottom
                                    },
                                    cross_auto: cross_dim is Auto,
                                    cross_hypo: dim_or(cross_dim, cross_size, intr_cross),
                                    cross_min: dim_min(
                                        if horiz {
                                            stc.min_height
                                        } else {
                                            stc.min_width
                                        },
                                        cross_size,
                                    ),
                                    cross_max: dim_max(
                                        if horiz {
                                            stc.max_height
                                        } else {
                                            stc.max_width
                                        },
                                        cross_size,
                                    ),
                                    cm_start: if horiz {
                                        stc.margin.top
                                    } else {
                                        stc.margin.left
                                    },
                                    cm_end: if horiz {
                                        stc.margin.bottom
                                    } else {
                                        stc.margin.right
                                    },
                                    align: match stc.align_self {
                                        AlignSelf::Inherit => parent_align,
                                        AlignSelf::Given(a) => a,
                                    },
                                };
                                Some(seq![it] + items)
                            },
                        }
                    }
                }
            },
        }
    }
}

/// Sum of the listed final sizes from `i` on.
pub open spec fn spec_sum_sizes(sizes: Seq<i64>, i: int) -> i64
    decreases sizes.len() - i,
{
    if i < 0 || i >= sizes.len() {
        0
    } else {
        sadd(sizes[i], spec_sum_sizes(sizes, i + 1))
    }
}

/// Sum of main-axis margins over the items from `i` on.
pub open spec fn spec_sum_margins(items: Seq<FlexItem>, i: int) -> i64
    decreases items.len() - i,
{
    if i < 0 || i >= items.len() {
        0
    } else {
        sadd(sadd(items[i].m_start, items[i].m_end), spec_sum_margins(items, i + 1))
    }
}

/// Sum of frozen sizes from `i` on.
pub open spec fn spec_sum_frozen(st: Seq<Option<i64>>, i: int) -> i64
    decreases st.len() - i,
{
    if i < 0 || i >= st.len() {
        0
    } else {
        sadd(
            match st[i] {
                Some(v) => v,
                None => 0,
            },
            spec_sum_frozen(st, i + 1),
        )
    }
}

/// Sum of the bases of unfrozen items from `i` on.
pub open spec fn spec_sum_unfrozen_basis(items: Seq<FlexItem>, st: Seq<Option<i64>>, i: int) -> i64
    decreases items.len() - i,
{
    if i < 0 || i >= items.len() {
        0
    } else {
        sadd(
            if i < st.len() && st[i] is None {
                items[i].basis
            } else {
                0
            },
            spec_sum_unfrozen_basis(items, st, i + 1),
        )
    }
}

/// Sum of grow or shrink weights of unfrozen items from `i` on.
pub open spec fn spec_sum_weight(
    items: Seq<FlexItem>,
    st: Seq<Option<i64>>,
    grow: bool,
    i: int,
) -> i64
    decreases items.len() - i,
{
    if i < 0 || i >= items.len() {
        0
    } else {
        sadd(
            if i < st.len() && st[i] is None {
                if grow {
                    items[i].grow
                } else {
                    items[i].shrink
                }
            } else {
                0
            },
            spec_sum_weight(items, st, grow, i + 1),
        )
    }
}

/// Sequential proportional shares of the remaining magnitude `rem` over the
/// unfrozen weights, each share capped at what remains, so the total never
/// exceeds the distributed space.
pub open spec fn spec_shares(
    items: Seq<FlexItem>,
    st: Seq<Option<i64>>,
    grow: bool,
    rem: i64,
    wrem: i64,
    i: int,
) -> Seq<i64>
    decreases items.len() - i,
{
    if i < 0 || i >= items.len() {
        Seq::<i64>::empty()
    } else {
        let w = if i < st.len() && st[i] is None {
            if grow {
                smax(items[i].grow, 0)
            } else {
                smax(items[i].shrink, 0)
            }
        } else {
            0
        };
        let share = if w > 0 && wrem > 0 && rem > 0 {
            smin(crate::num::smuldiv(rem, w, wrem), rem)
        } else {
            0
        };
        seq![share] + spec_shares(items, st, grow, ssub(rem, share), ssub(wrem, w), i + 1)
    }
}

/// Tentative sizes for one pass: frozen items keep their size, unfrozen get
/// basis plus or minus their share.
pub open spec fn spec_tent(
    items: Seq<FlexItem>,
    st: Seq<Option<i64>>,
    shares: Seq<i64>,
    grow: bool,
    i: int,
) -> Seq<i64>
    decreases items.len() - i,
{
    if i < 0 || i >= items.len() {
        Seq::<i64>::empty()
    } else {
        let v = match st[i] {
            Some(f) => f,
            None => {
                let sh = if 0 <= i < shares.len() {
                    shares[i]
                } else {
                    0
                };
                if grow {
                    sadd(items[i].basis, sh)
                } else {
                    ssub(items[i].basis, sh)
                }
            },
        };
        seq![v] + spec_tent(items, st, shares, grow, i + 1)
    }
}

/// Freeze every unfrozen item whose tentative size violates its clamp.
pub open spec fn spec_freeze(
    items: Seq<FlexItem>,
    st: Seq<Option<i64>>,
    tent: Seq<i64>,
    i: int,
) -> (Seq<Option<i64>>, bool)
    decreases items.len() - i,
{
    if i < 0 || i >= items.len() {
        (Seq::<Option<i64>>::empty(), false)
    } else {
        let rest = spec_freeze(items, st, tent, i + 1);
        let t = if 0 <= i < tent.len() {
            tent[i]
        } else {
            0
        };
        if st[i] is None {
            let c = sclamp(t, smax(items[i].main_min, 0), items[i].main_max);
            if c != t {
                (seq![Some(c)] + rest.0, true)
            } else {
                (seq![Option::<i64>::None] + rest.0, rest.1)
            }
        } else {
            (seq![st[i]] + rest.0, rest.1)
        }
    }
}

/// Final sizes when distribution stops: frozen values, others clamped bases.
pub open spec fn spec_finish_clamp(items: Seq<FlexItem>, st: Seq<Option<i64>>, i: int) -> Seq<i64>
    decreases items.len() - i,
{
    if i < 0 || i >= items.len() {
        Seq::<i64>::empty()
    } else {
        let v = match st[i] {
            Some(f) => f,
            None => sclamp(items[i].basis, smax(items[i].main_min, 0), items[i].main_max),
        };
        seq![v] + spec_finish_clamp(items, st, i + 1)
    }
}

/// The clamp-and-freeze distribution loop: distribute the remaining free
/// space over unfrozen weighted items, freeze every item whose clamped size
/// differs from its tentative size, and repeat until a pass freezes nothing
/// or no weighted item remains.
pub open spec fn spec_flex_loop(
    items: Seq<FlexItem>,
    st: Seq<Option<i64>>,
    avail: i64,
    grow: bool,
    fuel: nat,
) -> Seq<i64>
    decreases fuel,
{
    let wrem = spec_sum_weight(items, st, grow, 0);
    if fuel == 0 || wrem <= 0 {
        spec_finish_clamp(items, st, 0)
    } else {
        let free = ssub(ssub(avail, spec_sum_frozen(st, 0)), spec_sum_unfrozen_basis(items, st, 0));
        let f = if grow {
            smax(free, 0)
        } else {
            smax(ssub(0, free), 0)
        };
        let shares = spec_shares(items, st, grow, f, wrem, 0);
        let tent = spec_tent(items, st, shares, grow, 0);
        let frz = spec_freeze(items, st, tent, 0);
        if !frz.1 {
            tent
        } else {
            spec_flex_loop(items, frz.0, avail, grow, (fuel - 1) as nat)
        }
    }
}

/// Resolve the final main sizes of a line's items within `avail` main-axis
/// space (gaps and margins already excluded): grow when there is free space,
/// shrink when there is a deficit.
pub open spec fn spec_resolve_flex(items: Seq<FlexItem>, avail: i64) -> Seq<i64> {
    let st0 = Seq::<Option<i64>>::new(items.len(), |i: int| Option::<i64>::None);
    let free0 = ssub(avail, spec_sum_unfrozen_basis(items, st0, 0));
    spec_flex_loop(items, st0, avail, free0 >= 0, items.len())
}

/// Leading space before the first item for a justify mode.
pub open spec fn spec_lead(j: JustifyContent, leftover: i64, n: i64) -> i64 {
    match j {
        JustifyContent::FlexStart => 0,
        JustifyContent::FlexEnd => leftover,
        JustifyContent::Center => shalf(leftover),
        JustifyContent::SpaceBetween => 0,
        JustifyContent::SpaceAround => if leftover > 0 && n > 0 {
            shalf(sdivp(leftover, n))
        } else {
            0
        },
        JustifyContent::SpaceEvenly => if leftover > 0 && n >= 0 {
            sdivp(leftover, sadd(n, 1))
        } else {
            0
        },
    }
}

/// Extra space between adjacent items for a justify mode.
pub open spec fn spec_betw(j: JustifyContent, leftover: i64, n: i64) -> i64 {
    match j {
        JustifyContent::SpaceBetween => if leftover > 0 && n > 1 {
            sdivp(leftover, ssub(n, 1))
        } else {
            0
        },
        JustifyContent::SpaceAround => if leftover > 0 && n > 0 {
            sdivp(leftover, n)
        } else {
            0
        },
        JustifyContent::SpaceEvenly => if leftover > 0 && n >= 0 {
            sdivp(leftover, sadd(n, 1))
        } else {
            0
        },
        _ => 0,
    }
}

/// Content-box main coordinates of the items from `i` on, given the cursor.
pub open spec fn spec_positions(
    items: Seq<FlexItem>,
    sizes: Seq<i64>,
    step: i64,
    i: int,
    cursor: i64,
) -> Seq<i64>
    decreases items.len() - i,
{
    if i < 0 || i >= items.len() {
        Seq::<i64>::empty()
    } else {
        let sz = if 0 <= i < sizes.len() {
            sizes[i]
        } else {
            0
        };
        let coord = sadd(cursor, items[i].m_start);
        let next = sadd(sadd(sadd(coord, sz), items[i].m_end), step);
        seq![coord] + spec_positions(items, sizes, step, i + 1, next)
    }
}

/// The final cross size of an item within a line: stretched when alignment
/// is stretch and the cross dimension is auto, else the hypothetical size,
/// clamped either way.
pub open spec fn spec_cross_size(it: FlexItem, line_cross: i64) -> i64 {
    if it.align is Stretch && it.cross_auto {
        sclamp(line_cross, smax(it.cross_min, 0), it.cross_max)
    } else {
        sclamp(it.cross_hypo, smax(it.cross_min, 0), it.cross_max)
    }
}

/// The cross offset of an item within its line.
pub open spec fn spec_cross_off(it: FlexItem, line_cross: i64, csize: i64) -> i64 {
    match it.align {
        AlignItems::Center => sadd(
            it.cm_start,
            shalf(ssub(line_cross, sadd(sadd(csize, it.cm_start), it.cm_end))),
        ),
        AlignItems::FlexEnd => ssub(ssub(line_cross, csize), it.cm_end),
        _ => it.cm_start,
    }
}

fn e_sum_sizes(sizes: &Vec<i64>, i: usize) -> (r: i64)
    ensures
        r == spec_sum_sizes(sizes@, i as int),
    decreases sizes@.len() - i,
{
    if i >= sizes.len() {
        0
    } else {
        e_sadd(sizes[i], e_sum_sizes(sizes, i + 1))
    }
}

fn e_sum_margins(items: &Vec<FlexItem>, i: usize) -> (r: i64)
    ensures
        r == spec_sum_margins(items@, i as int),
    decreases items@.len() - i,
{
    if i >= items.len() {
        0
    } else {
        e_sadd(e_sadd(items[i].m_start, items[i].m_end), e_sum_margins(items, i + 1))
    }
}

fn e_sum_frozen(st: &Vec<Option<i64>>, i: usize) -> (r: i64)
    ensures
        r == spec_sum_frozen(st@, i as int),
    decreases st@.len() - i,
{
    if i >= st.len() {
        0
    } else {
        let v = match st[i] {
            Some(f) => f,
            None => 0,
        };
        e_sadd(v, e_sum_frozen(st, i + 1))
    }
}

fn e_sum_unfrozen_basis(items: &Vec<FlexItem>, st: &Vec<Option<i64>>, i: usize) -> (r: i64)
    ensures
        r == spec_sum_unfrozen_basis(items@, st@, i as int),
    decreases items@.len() - i,
{
    if i >= items.len() {
        0
    } else {
        let v = if i < st.len() && st[i].is_none() {
            items[i].basis
        } else {
            0
        };
        e_sadd(v, e_sum_unfrozen_basis(items, st, i + 1))
    }
}

fn e_sum_weight(items: &Vec<FlexItem>, st: &Vec<Option<i64>>, grow: bool, i: usize) -> (r: i64)
    ensures
        r == spec_sum_weight(items@, st@, grow, i as int),
    decreases items@.len() - i,
{
    if i >= items.len() {
        0
    } else {
        let v = if i < st.len() && st[i].is_none() {
            if grow {
                items[i].grow
            } else {
                items[i].shrink
            }
        } else {
            0
        };
        e_sadd(v, e_sum_weight(items, st, grow, i + 1))
    }
}

fn e_shares(
    items: &Vec<FlexItem>,
    st: &Vec<Option<i64>>,
    grow: bool,
    rem: i64,
    wrem: i64,
    i: usize,
) -> (r: Vec<i64>)
    requires
        rem >= 0,
    ensures
        r@ == spec_shares(items@, st@, grow, rem, wrem, i as int),
    decreases items@.len() - i,
{
    if i >= items.len() {
        let out: Vec<i64> = Vec::new();
        proof {
            assert(out@ =~= spec_shares(items@, st@, grow, rem, wrem, i as int));
        }
        return out;
    }
    let w: i64 = if i < st.len() && st[i].is_none() {
        if grow {
            e_smax(items[i].grow, 0)
        } else {
            e_smax(items[i].shrink, 0)
        }
    } else {
        0
    };
    let share: i64 = if w > 0 && wrem > 0 && rem > 0 {
        e_smin(crate::num::mul_div(rem, w, wrem), rem)
    } else {
        0
    };
    proof {
        assert(share >= 0 && share <= rem);
        assert(ssub(rem, share) == rem - share);
    }
    let rest = e_shares(items, st, grow, e_ssub(rem, share), e_ssub(wrem, w), i + 1);
    let mut out: Vec<i64> = Vec::new();
    out.push(share);
    let mut rest2 = rest;
    out.append(&mut rest2);
    proof {
        assert(out@ =~= spec_shares(items@, st@, grow, rem, wrem, i as int));
    }
    out
}

fn e_tent(
    items: &Vec<FlexItem>,
    st: &Vec<Option<i64>>,
    shares: &Vec<i64>,
    grow: bool,
    i: usize,
) -> (r: Vec<i64>)
    requires
        st@.len() == items@.len(),
    ensures
        r@ == spec_tent(items@, st@, shares@, grow, i as int),
    decreases items@.len() - i,
{
    if i >= items.len() {
        let out: Vec<i64> = Vec::new();
        proof {
            assert(out@ =~= spec_tent(items@, st@, shares@, grow, i as int));
        }
        return out;
    }
    let v: i64 = match st[i] {
        Some(f) => f,
        None => {
            let sh = if i < shares.len() {
                shares[i]
            } else {
                0
            };
            if grow {
                e_sadd(items[i].basis, sh)
            } else {
                e_ssub(items[i].basis, sh)
            }
        },
    };
    let rest = e_tent(items, st, shares, grow, i + 1);
    let mut out: Vec<i64> = Vec::new();
    out.push(v);
    let mut rest2 = rest;
    out.append(&mut rest2);
    proof {
        assert(out@ =~= spec_tent(items@, st@, shares@, grow, i as int));
    }
    out
}

fn e_freeze(items: &Vec<FlexItem>, st: &Vec<Option<i64>>, tent: &Vec<i64>, i: usize) -> (r: (
    Vec<Option<i64>>,
    bool,
))
    requires
        st@.len() == items@.len(),
    ensures
        r.0@ == spec_freeze(items@, st@, tent@, i as int).0,
        r.1 == spec_freeze(items@, st@, tent@, i as int).1,
    decreases items@.len() - i,
{
    if i >= items.len() {
        let out: Vec<Option<i64>> = Vec::new();
        proof {
            assert(out@ =~= spec_freeze(items@, st@, tent@, i as int).0);
        }
        return (out, false);
    }
    let rest = e_freeze(items, st, tent, i + 1);
    let t: i64 = if i < tent.len() {
        tent[i]
    } else {
        0
    };
    let (head, changed): (Option<i64>, bool) = match st[i] {
        None => {
            let c = e_sclamp(t, e_smax(items[i].main_min, 0), items[i].main_max);
            if c != t {
                (Some(c), true)
            } else {
                (None, rest.1)
            }
        },
        Some(f) => (Some(f), rest.1),
    };
    let mut out: Vec<Option<i64>> = Vec::new();
    out.push(head);
    let mut rest2 = rest.0;
    out.append(&mut rest2);
    proof {
        assert(out@ =~= spec_freeze(items@, st@, tent@, i as int).0);
    }
    (out, changed)
}

fn e_finish_clamp(items: &Vec<FlexItem>, st: &Vec<Option<i64>>, i: usize) -> (r: Vec<i64>)
    requires
        st@.len() == items@.len(),
    ensures
        r@ == spec_finish_clamp(items@, st@, i as int),
    decreases items@.len() - i,
{
    if i >= items.len() {
        let out: Vec<i64> = Vec::new();
        proof {
            assert(out@ =~= spec_finish_clamp(items@, st@, i as int));
        }
        return out;
    }
    let v: i64 = match st[i] {
        Some(f) => f,
        None => e_sclamp(items[i].basis, e_smax(items[i].main_min, 0), items[i].main_max),
    };
    let rest = e_finish_clamp(items, st, i + 1);
    let mut out: Vec<i64> = Vec::new();
    out.push(v);
    let mut rest2 = rest;
    out.append(&mut rest2);
    proof {
        assert(out@ =~= spec_finish_clamp(items@, st@, i as int));
    }
    out
}

fn e_flex_loop(
    items: &Vec<FlexItem>,
    st: Vec<Option<i64>>,
    avail: i64,
    grow: bool,
    fuel: usize,
) -> (r: Vec<i64>)
    requires
        st@.len() == items@.len(),
    ensures
        r@ == spec_flex_loop(items@, st@, avail, grow, fuel as nat),
    decreases fuel,
{
    let wrem = e_sum_weight(items, &st, grow, 0);
    if fuel == 0 || wrem <= 0 {
        return e_finish_clamp(items, &st, 0);
    }
    let free = e_ssub(e_ssub(avail, e_sum_frozen(&st, 0)), e_sum_unfrozen_basis(items, &st, 0));
    let f = if grow {
        e_smax(free, 0)
    } else {
        e_smax(e_ssub(0, free), 0)
    };
    let shares = e_shares(items, &st, grow, f, wrem, 0);
    let tent = e_tent(items, &st, &shares, grow, 0);
    let frz = e_freeze(items, &st, &tent, 0);
    if !frz.1 {
        tent
    } else {
        proof {
            assert(frz.0@.len() == items@.len()) by {
                lemma_freeze_len(items@, st@, tent@, 0);
            }
        }
        e_flex_loop(items, frz.0, avail, grow, fuel - 1)
    }
}

proof fn lemma_freeze_len(items: Seq<FlexItem>, st: Seq<Option<i64>>, tent: Seq<i64>, i: int)
    requires
        0 <= i <= items.len(),
    ensures
        spec_freeze(items, st, tent, i).0.len() == items.len() - i,
    decreases items.len() - i,
{
    if i < items.len() {
        lemma_freeze_len(items, st, tent, i + 1);
    }
}

fn e_resolve_flex(items: &Vec<FlexItem>, avail: i64) -> (r: Vec<i64>)
    ensures
        r@ == spec_resolve_flex(items@, avail),
{
    let mut st0: Vec<Option<i64>> = Vec::new();
    let mut k: usize = 0;
    while k < items.len()
        invariant
            k <= items@.len(),
            st0@.len() == k as int,
            forall|j: int| 0 <= j < k ==> st0@[j] is None,
        decreases items@.len() - k,
    {
        st0.push(None);
        k = k + 1;
    }
    proof {
        assert(st0@ =~= Seq::<Option<i64>>::new(items@.len(), |i: int| Option::<i64>::None));
    }
    let free0 = e_ssub(avail, e_sum_unfrozen_basis(items, &st0, 0));
    let n = items.len();
    e_flex_loop(items, st0, avail, free0 >= 0, n)
}

fn e_lead(j: &JustifyContent, leftover: i64, n: i64) -> (r: i64)
    ensures
        r == spec_lead(*j, leftover, n),
{
    match j {
        JustifyContent::FlexStart => 0,
        JustifyContent::FlexEnd => leftover,
        JustifyContent::Center => e_shalf(leftover),
        JustifyContent::SpaceBetween => 0,
        JustifyContent::SpaceAround => if leftover > 0 && n > 0 {
            e_shalf(e_sdivp(leftover, n))
        } else {
            0
        },
        JustifyContent::SpaceEvenly => if leftover > 0 && n >= 0 {
            e_sdivp(leftover, e_sadd(n, 1))
        } else {
            0
        },
    }
}

fn e_betw(j: &JustifyContent, leftover: i64, n: i64) -> (r: i64)
    ensures
        r == spec_betw(*j, leftover, n),
{
    match j {
        JustifyContent::SpaceBetween => if leftover > 0 && n > 1 {
            e_sdivp(leftover, e_ssub(n, 1))
        } else {
            0
        },
        JustifyContent::SpaceAround => if leftover > 0 && n > 0 {
            e_sdivp(leftover, n)
        } else {
            0
        },
        JustifyContent::SpaceEvenly => if leftover > 0 && n >= 0 {
            e_sdivp(leftover, e_sadd(n, 1))
        } else {
            0
        },
        _ => 0,
    }
}

fn e_positions(items: &Vec<FlexItem>, sizes: &Vec<i64>, step: i64, i: usize, cursor: i64) -> (r:
    Vec<i64>)
    ensures
        r@ == spec_positions(items@, sizes@, step, i as int, cursor),
    decreases items@.len() - i,
{
    if i >= items.len() {
        let out: Vec<i64> = Vec::new();
        proof {
            assert(out@ =~= spec_positions(items@, sizes@, step, i as int, cursor));
        }
        return out;
    }
    let sz = if i < sizes.len() {
        sizes[i]
    } else {
        0
    };
    let coord = e_sadd(cursor, items[i].m_start);
    let next = e_sadd(e_sadd(e_sadd(coord, sz), items[i].m_end), step);
    let rest = e_positions(items, sizes, step, i + 1, next);
    let mut out: Vec<i64> = Vec::new();
    out.push(coord);
    let mut rest2 = rest;
    out.append(&mut rest2);
    proof {
        assert(out@ =~= spec_positions(items@, sizes@, step, i as int, cursor));
    }
    out
}

fn e_cross_size(it: &FlexItem, line_cross: i64) -> (r: i64)
    ensures
        r == spec_cross_size(*it, line_cross),
{
    if matches!(it.align, AlignItems::Stretch) && it.cross_auto {
        e_sclamp(line_cross, e_smax(it.cross_min, 0), it.cross_max)
    } else {
        e_sclamp(it.cross_hypo, e_smax(it.cross_min, 0), it.cross_max)
    }
}

fn e_cross_off(it: &FlexItem, line_cross: i64, csize: i64) -> (r: i64)
    ensures
        r == spec_cross_off(*it, line_cross, csize),
{
    match it.align {
        AlignItems::Center => e_sadd(
            it.cm_start,
            e_shalf(e_ssub(line_cross, e_sadd(e_sadd(csize, it.cm_start), it.cm_end))),
        ),
        AlignItems::FlexEnd => e_ssub(e_ssub(line_cross, csize), it.cm_end),
        _ => it.cm_start,
    }
}

/// The zero-box entries of a node and all its descendants: an excluded
/// subtree reports all-zero geometry.
pub open spec fn spec_zero_tree(s: Seq<Option<NodeData>>, id: u32, fuel: nat) -> Option<
    Seq<(u32, ComputedLayout)>,
>
    decreases fuel, 1int, 0int,
{
    if fuel == 0 {
        None
    } else if !live_node(s, id) {
        Some(Seq::<(u32, ComputedLayout)>::empty())
    } else {
        match spec_zero_kids(s, node_of(s, id).children@, fuel, 0) {
            None => None,
            Some(rest) => Some(seq![(id, ComputedLayout::spec_zero())] + rest),
        }
    }
}

pub open spec fn spec_zero_kids(
    s: Seq<Option<NodeData>>,
    kids: Seq<u32>,
    fuel: nat,
    i: int,
) -> Option<Seq<(u32, ComputedLayout)>>
    decreases fuel, 0int, kids.len() - i,
{
    if fuel == 0 {
        None
    } else if i < 0 || i >= kids.len() {
        Some(Seq::<(u32, ComputedLayout)>::empty())
    } else {
        match spec_zero_tree(s, kids[i], (fuel - 1) as nat) {
            None => None,
            Some(sub) => match spec_zero_kids(s, kids, fuel, i + 1) {
                None => None,
                Some(rest) => Some(sub + rest),
            },
        }
    }
}

fn e_zero_tree(nodes: &Vec<Option<NodeData>>, id: u32, fuel: usize) -> (r: Option<
    Vec<(u32, ComputedLayout)>,
>)
    ensures
        match r {
            Option::None => spec_zero_tree(nodes@, id, fuel as nat) is None,
            Option::Some(v) => spec_zero_tree(nodes@, id, fuel as nat) == Some(v@),
        },
    decreases fuel as nat, 1int, 0int,
{
    if fuel == 0 {
        return None;
    }
    if !((id as usize) < nodes.len() && nodes[id as usize].is_some()) {
        let out: Vec<(u32, ComputedLayout)> = Vec::new();
        proof {
            assert(out@ =~= Seq::<(u32, ComputedLayout)>::empty());
        }
        return Some(out);
    }
    let rest = match e_zero_kids(nodes, id, fuel, 0) {
        None => {
            return None;
        },
        Some(v) => v,
    };
    let mut out: Vec<(u32, ComputedLayout)> = Vec::new();
    out.push((id, ComputedLayout::zero()));
    let mut rest2 = rest;
    out.append(&mut rest2);
    proof {
        assert(out@ =~= seq![(id, ComputedLayout::spec_zero())]
            + spec_zero_kids(nodes@, node_of(nodes@, id).children@, fuel as nat, 0)->0);
    }
    Some(out)
}

fn e_zero_kids(nodes: &Vec<Option<NodeData>>, id: u32, fuel: usize, i: usize) -> (r: Option<
    Vec<(u32, ComputedLayout)>,
>)
    requires
        live_node(nodes@, id),
    ensures
        match r {
            Option::None => spec_zero_kids(
                nodes@,
                node_of(nodes@, id).children@,
                fuel as nat,
                i as int,
            ) is None,
            Option::Some(v) => spec_zero_kids(
                nodes@,
                node_of(nodes@, id).children@,
                fuel as nat,
                i as int,
            ) == Some(v@),
        },
    decreases fuel as nat, 0int, node_of(nodes@, id).children@.len() - i,
{
    if fuel == 0 {
        return None;
    }
    let n_kids = match &nodes[id as usize] {
        Some(nd) => nd.children.len(),
        None => 0,
    };
    if i >= n_kids {
        let out: Vec<(u32, ComputedLayout)> = Vec::new();
        proof {
            assert(out@ =~= Seq::<(u32, ComputedLayout)>::empty());
        }
        return Some(out);
    }
    let c: u32 = match &nodes[id as usize] {
        Some(nd) => nd.children[i],
        None => 0,
    };
    let sub = match e_zero_tree(nodes, c, fuel - 1) {
        None => {
            return None;
        },
        Some(v) => v,
    };
    let rest = match e_zero_kids(nodes, id, fuel, i + 1) {
        None => {
            return None;
        },
        Some(v) => v,
    };
    let mut out = sub;
    let mut rest2 = rest;
    out.append(&mut rest2);
    Some(out)
}

/// Every entry a zero subtree reports carries the zero geometry.
pub proof fn lemma_zero_tree_zero(s: Seq<Option<NodeData>>, id: u32, fuel: nat)
    ensures
        spec_zero_tree(s, id, fuel) matches Some(entries) ==> forall|k: int|
            0 <= k < entries.len() ==> (#[trigger] entries[k]).1 == ComputedLayout::spec_zero(),
    decreases fuel, 1int, 0int,
{
    if fuel != 0 && live_node(s, id) {
        lemma_zero_kids_zero(s, node_of(s, id).children@, fuel, 0);
    }
}

pub proof fn lemma_zero_kids_zero(s: Seq<Option<NodeData>>, kids: Seq<u32>, fuel: nat, i: int)
    ensures
        spec_zero_kids(s, kids, fuel, i) matches Some(entries) ==> forall|k: int|
            0 <= k < entries.len() ==> (#[trigger] entries[k]).1 == ComputedLayout::spec_zero(),
    decreases fuel, 0int, kids.len() - i,
{
    if fuel != 0 && 0 <= i < kids.len() {
        lemma_zero_tree_zero(s, kids[i], (fuel - 1) as nat);
        lemma_zero_kids_zero(s, kids, fuel, i + 1);
    }
}

/// Geometry of a node placed at `(x, y)` with final border-box size
/// `(w, h)`, together with all its descendants. `None` means out of fuel.
pub open spec fn spec_layout(
    s: Seq<Option<NodeData>>,
    id: u32,
    x: i64,
    y: i64,
    w: i64,
    h: i64,
    acb_w: i64,
    acb_h: i64,
    fuel: nat,
) -> Option<Seq<(u32, ComputedLayout)>>
    decreases fuel, 1int, 0int,
{
    if fuel == 0 {
        None
    } else if !live_node(s, id) {
        Some(Seq::<(u32, ComputedLayout)>::empty())
    } else {
        let nd = node_of(s, id);
        let st = nd.style;
        if st.display is Gone {
            spec_zero_tree(s, id, fuel)
        } else {
            let entry = ComputedLayout {
                x,
                y,
                width: w,
                height: h,
                padding_top: st.padding.top,
                padding_right: st.padding.right,
                padding_bottom: st.padding.bottom,
                padding_left: st.padding.left,
                border_top: st.border.top,
                border_right: st.border.right,
                border_bottom: st.border.bottom,
                border_left: st.border.left,
            };
            let kids = nd.children@;
            if kids.len() == 0 {
                Some(seq![(id, entry)])
            } else {
                let inner_w = smax(
                    ssub(w, sadd(sadd(st.padding.left, st.padding.right), sadd(st.border.left, st.border.right))),
                    0,
                );
                let inner_h = smax(
                    ssub(h, sadd(sadd(st.padding.top, st.padding.bottom), sadd(st.border.top, st.border.bottom))),
                    0,
                );
                // an absolutely positioned box is the containing context of
                // the absolute boxes below it
                let nacb_w = if st.position is Absolute {
                    inner_w
                } else {
                    acb_w
                };
                let nacb_h = if st.position is Absolute {
                    inner_h
                } else {
                    acb_h
                };
                let horiz = st.flex_direction is Row || st.flex_direction is RowReverse;
                let rev = st.flex_direction is RowReverse || st.flex_direction is ColumnReverse;
                let main_size = if horiz {
                    inner_w
                } else {
                    inner_h
                };
                let cross_size = if horiz {
                    inner_h
                } else {
                    inner_w
                };
                let gap = if horiz {
                    st.column_gap
                } else {
                    st.row_gap
                };
                let cross_gap = if horiz {
                    st.row_gap
                } else {
                    st.column_gap
                };
                match spec_items(s, kids, horiz, main_size, cross_size, st.align_items, fuel, 0) {
                    None => None,
                    Some(items) => {
                        let wrap_on = st.flex_wrap is Wrap || st.flex_wrap is WrapReverse;
                        let wrap_rev = st.flex_wrap is WrapReverse;
                        let p1 = spec_pass1(
                            items,
                            main_size,
                            gap,
                            st.justify_content,
                            wrap_on,
                            0,
                            0,
                        );
                        let lines = spec_line_layout(
                            p1.3,
                            wrap_on,
                            wrap_rev,
                            cross_size,
                            cross_gap,
                            st.align_content,
                        );
                        match spec_place(
                            s,
                            kids,
                            items,
                            p1.0,
                            p1.1,
                            p1.2,
                            lines.0,
                            lines.1,
                            horiz,
                            rev,
                            main_size,
                            nacb_w,
                            nacb_h,
                            fuel,
                            0,
                            0,
                        ) {
                            None => None,
                            Some(placed) => Some(seq![(id, entry)] + placed),
                        }
                    },
                }
            }
        }
    }
}

/// Place and recurse into the kids from index `i`, `flow` in-flow items
/// already placed.
pub open spec fn spec_place(
    s: Seq<Option<NodeData>>,
    kids: Seq<u32>,
    items: Seq<FlexItem>,
    sizes: Seq<i64>,
    poss: Seq<i64>,
    lineidx: Seq<i64>,
    crosses: Seq<i64>,
    starts: Seq<i64>,
    horiz: bool,
    rev: bool,
    main_size: i64,
    acb_w: i64,
    acb_h: i64,
    fuel: nat,
    i: int,
    flow: int,
) -> Option<Seq<(u32, ComputedLayout)>>
    decreases fuel, 0int, kids.len() - i,
{
    if fuel == 0 {
        None
    } else if i < 0 || i >= kids.len() {
        Some(Seq::<(u32, ComputedLayout)>::empty())
    } else {
        let c = kids[i];
        if !live_node(s, c) {
            spec_place(
                s, kids, items, sizes, poss, lineidx, crosses, starts, horiz, rev, main_size,
                acb_w, acb_h, fuel, i + 1, flow,
            )
        } else {
            let stc = node_of(s, c).style;
            if stc.display is Gone {
                match spec_zero_tree(s, c, (fuel - 1) as nat) {
                    None => None,
                    Some(sub) => match spec_place(
                        s, kids, items, sizes, poss, lineidx, crosses, starts, horiz, rev,
                        main_size, acb_w, acb_h, fuel, i + 1, flow,
                    ) {
                        None => None,
                        Some(rest) => Some(sub + rest),
                    },
                }
            } else if stc.position is Absolute {
                match spec_intrinsic(s, c, (fuel - 1) as nat) {
                    None => None,
                    Some(intr) => {
                        let cw = sclamp(
                            dim_or(stc.width, acb_w, intr.0),
                            dim_min(stc.min_width, acb_w),
                            dim_max(stc.max_width, acb_w),
                        );
                        let ch = sclamp(
                            dim_or(stc.height, acb_h, intr.1),
                            dim_min(stc.min_height, acb_h),
                            dim_max(stc.max_height, acb_h),
                        );
                        match spec_layout(
                            s, c, stc.margin.left, stc.margin.top, cw, ch, acb_w, acb_h,
                            (fuel - 1) as nat,
                        ) {
                            None => None,
                            Some(sub) => match spec_place(
                                s, kids, items, sizes, poss, lineidx, crosses, starts, horiz,
                                rev, main_size, acb_w, acb_h, fuel, i + 1, flow,
                            ) {
                                None => None,
                                Some(rest) => Some(sub + rest),
                            },
                        }
                    },
                }
            } else if flow < 0 || flow >= items.len() {
                spec_place(
                    s, kids, items, sizes, poss, lineidx, crosses, starts, horiz, rev, main_size,
                    acb_w, acb_h, fuel, i + 1, flow,
                )
            } else {
                let it = items[flow];
                let m = if 0 <= flow < sizes.len() {
                    sizes[flow]
                } else {
                    0
                };
                let pos = if 0 <= flow < poss.len() {
                    poss[flow]
                } else {
                    0
                };
                let li = if 0 <= flow < lineidx.len() {
                    lineidx[flow]
                } else {
                    0
                };
                let lc = if 0 <= li < crosses.len() {
                    crosses[li as int]
                } else {
                    0
                };
                let ls = if 0 <= li < starts.len() {
                    starts[li as int]
                } else {
                    0
                };
                let b = spec_flow_box(it, m, pos, lc, ls, horiz, rev, main_size);
                match spec_layout(s, c, b.0, b.1, b.2, b.3, acb_w, acb_h, (fuel - 1) as nat) {
                    None => None,
                    Some(sub) => match spec_place(
                        s, kids, items, sizes, poss, lineidx, crosses, starts, horiz, rev,
                        main_size, acb_w, acb_h, fuel, i + 1, flow + 1,
                    ) {
                        None => None,
                        Some(rest) => Some(sub + rest),
                    },
                }
            }
        }
    }
}

/// Geometry of the whole subtree of `root` for a definite available width
/// and an optional available height; an absent height means max-content
/// sizing. The root is placed at the origin; auto root sizes stretch to the
/// definite available space and fall back to the intrinsic size otherwise.
pub open spec fn spec_compute(
    s: Seq<Option<NodeData>>,
    root: u32,
    aw: i64,
    ah: Option<i64>,
    fuel: nat,
) -> Option<Seq<(u32, ComputedLayout)>> {
    if !live_node(s, root) {
        Some(Seq::<(u32, ComputedLayout)>::empty())
    } else {
        match spec_intrinsic(s, root, fuel) {
            None => None,
            Some(intr) => {
                let st = node_of(s, root).style;
                let wb = smax(aw, 0);
                let w = sclamp(
                    dim_or(st.width, wb, wb),
                    dim_min(st.min_width, wb),
                    dim_max(st.max_width, wb),
                );
                let h = match ah {
                    Some(h0) => {
                        let hb = smax(h0, 0);
                        sclamp(
                            dim_or(st.height, hb, hb),
                            dim_min(st.min_height, hb),
                            dim_max(st.max_height, hb),
                        )
                    },
                    None => {
                        let h0 = match st.height {
                            Dim::Length(v) => smax(v, 0),
                            _ => intr.1,
                        };
                        sclamp(h0, min_len(st.min_height), max_len(st.max_height))
                    },
                };
                spec_layout(s, root, 0, 0, w, h, w, h, fuel)
            },
        }
    }
}

fn e_items(
    nodes: &Vec<Option<NodeData>>,
    id: u32,
    horiz: bool,
    main_size: i64,
    cross_size: i64,
    parent_align: AlignItems,
    fuel: usize,
    i: usize,
) -> (r: Option<Vec<FlexItem>>)
    requires
        live_node(nodes@, id),
    ensures
        match r {
            Option::None => spec_items(
                nodes@,
                node_of(nodes@, id).children@,
                horiz,
                main_size,
                cross_size,
                parent_align,
                fuel as nat,
                i as int,
            ) is None,
            Option::Some(v) => spec_items(
                nodes@,
                node_of(nodes@, id).children@,
                horiz,
                main_size,
                cross_size,
                parent_align,
                fuel as nat,
                i as int,
            ) == Some(v@),
        },
    decreases fuel as nat, 0int, node_of(nodes@, id).children@.len() - i,
{
    if fuel == 0 {
        return None;
    }
    let n_kids = match &nodes[id as usize] {
        Some(nd) => nd.children.len(),
        None => 0,
    };
    if i >= n_kids {
        let out: Vec<FlexItem> = Vec::new();
        proof {
            assert(out@ =~= Seq::<FlexItem>::empty());
        }
        return Some(out);
    }
    let c: u32 = match &nodes[id as usize] {
        Some(nd) => nd.children[i],
        None => 0,
    };
    let rest = match e_items(nodes, id, horiz, main_size, cross_size, parent_align, fuel, i + 1) {
        None => {
            return None;
        },
        Some(v) => v,
    };
    if !((c as usize) < nodes.len()) {
        return Some(rest);
    }
    let stc = match &nodes[c as usize] {
        None => {
            return Some(rest);
        },
        Some(nd) => nd.style,
    };
    if matches!(stc.display, Display::Gone) || matches!(stc.position, Position::Absolute) {
        return Some(rest);
    }
    let intr = match e_intrinsic(nodes, c, fuel - 1) {
        None => {
            return None;
        },
        Some(v) => v,
    };
    let intr_main = if horiz {
        intr.0
    } else {
        intr.1
    };
    let intr_cross = if horiz {
        intr.1
    } else {
        intr.0
    };
    let main_dim = if horiz {
        stc.width
    } else {
        stc.height
    };
    let cross_dim = if horiz {
        stc.height
    } else {
        stc.width
    };
    let basis = match e_dim_px(&stc.flex_basis, main_size) {
        Some(b) => b,
        None => e_dim_or(&main_dim, main_size, intr_main),
    };
    let it = FlexItem {
        node: c,
        basis,
        grow: e_smax(stc.flex_grow, 0),
        shrink: e_smax(stc.flex_shrink, 0),
        main_min: e_dim_min(
            if horiz {
                &stc.min_width
            } else {
                &stc.min_height
            },
            main_size,
        ),
        main_max: e_dim_max(
            if horiz {
                &stc.max_width
            } else {
                &stc.max_height
            },
            main_size,
        ),
        m_start: if horiz {
            stc.margin.left
        } else {
            stc.margin.top
        },
        m_end: if horiz {
            stc.margin.right
        } else {
            stc.margin.bottom
        },
        cross_auto: matches!(cross_dim, Dim::Auto),
        cross_hypo: e_dim_or(&cross_dim, cross_size, intr_cross),
        cross_min: e_dim_min(
            if horiz {
                &stc.min_height
            } else {
                &stc.min_width
            },
            cross_size,
        ),
        cross_max: e_dim_max(
            if horiz {
                &stc.max_height
            } else {
                &stc.max_width
            },
            cross_size,
        ),
        cm_start: if horiz {
            stc.margin.top
        } else {
            stc.margin.left
        },
        cm_end: if horiz {
            stc.margin.bottom
        } else {
            stc.margin.right
        },
        align: match stc.align_self {
            AlignSelf::Inherit => parent_align,
            AlignSelf::Given(a) => a,
        },
    };
    let mut out: Vec<FlexItem> = Vec::new();
    out.push(it);
    let mut rest2 = rest;
    out.append(&mut rest2);
    proof {
        assert(out@ =~= seq![it] + spec_items(
            nodes@,
            node_of(nodes@, id).children@,
            horiz,
            main_size,
            cross_size,
            parent_align,
            fuel as nat,
            i as int + 1,
        )->0);
    }
    Some(out)
}

#[verifier::rlimit(100)]
#[verifier::spinoff_prover]
fn e_layout(
    nodes: &Vec<Option<NodeData>>,
    id: u32,
    x: i64,
    y: i64,
    w: i64,
    h: i64,
    acb_w: i64,
    acb_h: i64,
    fuel: usize,
) -> (r: Option<Vec<(u32, ComputedLayout)>>)
    ensures
        match r {
            Option::None => spec_layout(nodes@, id, x, y, w, h, acb_w, acb_h, fuel as nat) is None,
            Option::Some(v) => spec_layout(nodes@, id, x, y, w, h, acb_w, acb_h, fuel as nat)
                == Some(v@),
        },
    decreases fuel as nat, 1int, 0int, 0int,
{
    if fuel == 0 {
        return None;
    }
    if !((id as usize) < nodes.len() && nodes[id as usize].is_some()) {
        let out: Vec<(u32, ComputedLayout)> = Vec::new();
        proof {
            assert(out@ =~= Seq::<(u32, ComputedLayout)>::empty());
        }
        return Some(out);
    }
    let (st, n_kids): (crate::style::Style, usize) = match &nodes[id as usize] {
        Some(nd) => (nd.style, nd.children.len()),
        None => {
            return None;
        },
    };
    if matches!(st.display, Display::Gone) {
        return e_zero_tree(nodes, id, fuel);
    }
    let entry = ComputedLayout {
        x,
        y,
        width: w,
        height: h,
        padding_top: st.padding.top,
        padding_right: st.padding.right,
        padding_bottom: st.padding.bottom,
        padding_left: st.padding.left,
        border_top: st.border.top,
        border_right: st.border.right,
        border_bottom: st.border.bottom,
        border_left: st.border.left,
    };
    if n_kids == 0 {
        let mut out: Vec<(u32, ComputedLayout)> = Vec::new();
        out.push((id, entry));
        proof {
            assert(out@ =~= seq![(id, entry)]);
        }
        return Some(out);
    }
    let inner_w = e_smax(
        e_ssub(w, e_sadd(e_sadd(st.padding.left, st.padding.right), e_sadd(st.border.left, st.border.right))),
        0,
    );
    let inner_h = e_smax(
        e_ssub(h, e_sadd(e_sadd(st.padding.top, st.padding.bottom), e_sadd(st.border.top, st.border.bottom))),
        0,
    );
    let nacb_w = if matches!(st.position, Position::Absolute) {
        inner_w
    } else {
        acb_w
    };
    let nacb_h = if matches!(st.position, Position::Absolute) {
        inner_h
    } else {
        acb_h
    };
    let horiz = matches!(st.flex_direction, FlexDirection::Row)
        || matches!(st.flex_direction, FlexDirection::RowReverse);
    let rev = matches!(st.flex_direction, FlexDirection::RowReverse)
        || matches!(st.flex_direction, FlexDirection::ColumnReverse);
    let main_size = if horiz {
        inner_w
    } else {
        inner_h
    };
    let cross_size = if horiz {
        inner_h
    } else {
        inner_w
    };
    let gap = if horiz {
        st.column_gap
    } else {
        st.row_gap
    };
    let cross_gap = if horiz {
        st.row_gap
    } else {
        st.column_gap
    };
    let items = match e_items(nodes, id, horiz, main_size, cross_size, st.align_items, fuel, 0) {
        None => {
            return None;
        },
        Some(v) => v,
    };
    proof {
        assert(items@.len() <= node_of(nodes@, id).children@.len()) by {
            lemma_items_len(
                nodes@,
                node_of(nodes@, id).children@,
                horiz,
                main_size,
                cross_size,
                st.align_items,
                fuel as nat,
                0,
            );
        }
    }
    let wrap_on = matches!(st.flex_wrap, FlexWrap::Wrap)
        || matches!(st.flex_wrap, FlexWrap::WrapReverse);
    let wrap_rev = matches!(st.flex_wrap, FlexWrap::WrapReverse);
    let p1 = e_pass1(&items, main_size, gap, st.justify_content, wrap_on, 0, 0);
    let sizes_flat = p1.0;
    let poss_flat = p1.1;
    let lineidx = p1.2;
    let crosses0 = p1.3;
    let ls_pair = e_line_layout(&crosses0, wrap_on, wrap_rev, cross_size, cross_gap, &st.align_content);
    let crosses = ls_pair.0;
    let starts = ls_pair.1;
    let placed = match e_place(
        nodes,
        id,
        &items,
        &sizes_flat,
        &poss_flat,
        &lineidx,
        &crosses,
        &starts,
        horiz,
        rev,
        main_size,
        nacb_w,
        nacb_h,
        fuel,
        0,
        0,
    ) {
        None => {
            return None;
        },
        Some(v) => v,
    };
    let mut out: Vec<(u32, ComputedLayout)> = Vec::new();
    out.push((id, entry));
    let mut placed2 = placed;
    out.append(&mut placed2);
    Some(out)
}

/// The item list is never longer than the child list.
proof fn lemma_items_len(
    s: Seq<Option<NodeData>>,
    kids: Seq<u32>,
    horiz: bool,
    main_size: i64,
    cross_size: i64,
    parent_align: AlignItems,
    fuel: nat,
    i: int,
)
    requires
        0 <= i <= kids.len(),
    ensures
        spec_items(s, kids, horiz, main_size, cross_size, parent_align, fuel, i) matches Some(v)
            ==> v.len() <= kids.len() - i,
    decreases fuel, 0int, kids.len() - i,
{
    if fuel != 0 && i < kids.len() {
        lemma_items_len(s, kids, horiz, main_size, cross_size, parent_align, fuel, i + 1);
    }
}

#[verifier::rlimit(100)]
#[verifier::spinoff_prover]
fn e_place(
    nodes: &Vec<Option<NodeData>>,
    id: u32,
    items: &Vec<FlexItem>,
    sizes: &Vec<i64>,
    poss: &Vec<i64>,
    lineidx: &Vec<i64>,
    crosses: &Vec<i64>,
    starts: &Vec<i64>,
    horiz: bool,
    rev: bool,
    main_size: i64,
    acb_w: i64,
    acb_h: i64,
    fuel: usize,
    i: usize,
    flow: usize,
) -> (r: Option<Vec<(u32, ComputedLayout)>>)
    requires
        live_node(nodes@, id),
    ensures
        ({
            let g = spec_place(
                nodes@,
                node_of(nodes@, id).children@,
                items@,
                sizes@,
                poss@,
                lineidx@,
                crosses@,
                starts@,
                horiz,
                rev,
                main_size,
                acb_w,
                acb_h,
                fuel as nat,
                i as int,
                flow as int,
            );
            match r {
                Option::None => g is None,
                Option::Some(v) => g == Some(v@),
            }
        }),
    decreases fuel as nat, 0int, node_of(nodes@, id).children@.len() - i, 1int,
{
    if fuel == 0 {
        return None;
    }
    let n_kids = match &nodes[id as usize] {
        Some(nd) => nd.children.len(),
        None => 0,
    };
    if i >= n_kids {
        let out: Vec<(u32, ComputedLayout)> = Vec::new();
        proof {
            assert(out@ =~= Seq::<(u32, ComputedLayout)>::empty());
        }
        return Some(out);
    }
    let c: u32 = match &nodes[id as usize] {
        Some(nd) => nd.children[i],
        None => 0,
    };
    if !((c as usize) < nodes.len() && nodes[c as usize].is_some()) {
        return e_place(
            nodes, id, items, sizes, poss, lineidx, crosses, starts, horiz, rev, main_size,
            acb_w, acb_h, fuel, i + 1, flow,
        );
    }
    let stc = match &nodes[c as usize] {
        Some(nd) => nd.style,
        None => {
            return None;
        },
    };
    if matches!(stc.display, Display::Gone) {
        let sub = match e_zero_tree(nodes, c, fuel - 1) {
            None => {
                return None;
            },
            Some(v) => v,
        };
        let rest = match e_place(
            nodes, id, items, sizes, poss, lineidx, crosses, starts, horiz, rev, main_size,
            acb_w, acb_h, fuel, i + 1, flow,
        ) {
            None => {
                return None;
            },
            Some(v) => v,
        };
        let mut out = sub;
        let mut rest2 = rest;
        out.append(&mut rest2);
        return Some(out);
    }
    if matches!(stc.position, Position::Absolute) {
        let intr = match e_intrinsic(nodes, c, fuel - 1) {
            None => {
                return None;
            },
            Some(v) => v,
        };
        let cw = e_sclamp(
            e_dim_or(&stc.width, acb_w, intr.0),
            e_dim_min(&stc.min_width, acb_w),
            e_dim_max(&stc.max_width, acb_w),
        );
        let ch = e_sclamp(
            e_dim_or(&stc.height, acb_h, intr.1),
            e_dim_min(&stc.min_height, acb_h),
            e_dim_max(&stc.max_height, acb_h),
        );
        let sub = match e_layout(
            nodes, c, stc.margin.left, stc.margin.top, cw, ch, acb_w, acb_h, fuel - 1,
        ) {
            None => {
                return None;
            },
            Some(v) => v,
        };
        let rest = match e_place(
            nodes, id, items, sizes, poss, lineidx, crosses, starts, horiz, rev, main_size,
            acb_w, acb_h, fuel, i + 1, flow,
        ) {
            None => {
                return None;
            },
            Some(v) => v,
        };
        let mut out = sub;
        let mut rest2 = rest;
        out.append(&mut rest2);
        return Some(out);
    }
    if flow >= items.len() {
        return e_place(
            nodes, id, items, sizes, poss, lineidx, crosses, starts, horiz, rev, main_size,
            acb_w, acb_h, fuel, i + 1, flow,
        );
    }
    e_place_flow(
        nodes, id, items, sizes, poss, lineidx, crosses, starts, horiz, rev, main_size, acb_w,
        acb_h, fuel, i, flow, c,
    )
}

/// Place one in-flow item (the `flow`-th) that is child `i`, then the rest.
#[verifier::rlimit(100)]
#[verifier::spinoff_prover]
fn e_place_flow(
    nodes: &Vec<Option<NodeData>>,
    id: u32,
    items: &Vec<FlexItem>,
    sizes: &Vec<i64>,
    poss: &Vec<i64>,
    lineidx: &Vec<i64>,
    crosses: &Vec<i64>,
    starts: &Vec<i64>,
    horiz: bool,
    rev: bool,
    main_size: i64,
    acb_w: i64,
    acb_h: i64,
    fuel: usize,
    i: usize,
    flow: usize,
    c: u32,
) -> (r: Option<Vec<(u32, ComputedLayout)>>)
    requires
        live_node(nodes@, id),
        fuel >= 1,
        (i as int) < node_of(nodes@, id).children@.len(),
        node_of(nodes@, id).children@[i as int] == c,
        live_node(nodes@, c),
        !(node_of(nodes@, c).style.display is Gone),
        !(node_of(nodes@, c).style.position is Absolute),
        (flow as int) < items@.len(),
    ensures
        ({
            let g = spec_place(
                nodes@,
                node_of(nodes@, id).children@,
                items@,
                sizes@,
                poss@,
                lineidx@,
                crosses@,
                starts@,
                horiz,
                rev,
                main_size,
                acb_w,
                acb_h,
                fuel as nat,
                i as int,
                flow as int,
            );
            match r {
                Option::None => g is None,
                Option::Some(v) => g == Some(v@),
            }
        }),
    decreases fuel as nat, 0int, node_of(nodes@, id).children@.len() - i, 0int,
{
    let it = items[flow];
    let m: i64 = if flow < sizes.len() {
        sizes[flow]
    } else {
        0
    };
    let pos: i64 = if flow < poss.len() {
        poss[flow]
    } else {
        0
    };
    let li: i64 = if flow < lineidx.len() {
        lineidx[flow]
    } else {
        0
    };
    let lc: i64 = if 0 <= li && (li as u128) < (crosses.len() as u128) {
        crosses[li as usize]
    } else {
        0
    };
    let ls: i64 = if 0 <= li && (li as u128) < (starts.len() as u128) {
        starts[li as usize]
    } else {
        0
    };
    let b = e_flow_box(&it, m, pos, lc, ls, horiz, rev, main_size);
    let nk: usize = match &nodes[id as usize] {
        Some(nd) => nd.children.len(),
        None => 0,
    };
    let n_items: usize = items.len();
    proof {
        let kids = node_of(nodes@, id).children@;
        assert(kids.len() == nk as int);
        assert(items@.len() == n_items as int);
        let g = spec_place(
            nodes@,
            kids,
            items@,
            sizes@,
            poss@,
            lineidx@,
            crosses@,
            starts@,
            horiz,
            rev,
            main_size,
            acb_w,
            acb_h,
            fuel as nat,
            i as int,
            flow as int,
        );
        assert(it == items@[flow as int]);
        assert(b == spec_flow_box(items@[flow as int], m, pos, lc, ls, horiz, rev, main_size));
        assert(g == (match spec_layout(
            nodes@,
            c,
            b.0,
            b.1,
            b.2,
            b.3,
            acb_w,
            acb_h,
            (fuel - 1) as nat,
        ) {
            Option::None => Option::<Seq<(u32, ComputedLayout)>>::None,
            Option::Some(sub0) => match spec_place(
                nodes@,
                kids,
                items@,
                sizes@,
                poss@,
                lineidx@,
                crosses@,
                starts@,
                horiz,
                rev,
                main_size,
                acb_w,
                acb_h,
                fuel as nat,
                i as int + 1,
                flow as int + 1,
            ) {
                Option::None => Option::<Seq<(u32, ComputedLayout)>>::None,
                Option::Some(rest0) => Option::Some(sub0 + rest0),
            },
        }));
    }
    let sub = match e_layout(nodes, c, b.0, b.1, b.2, b.3, acb_w, acb_h, fuel - 1) {
        None => {
            return None;
        },
        Some(v) => v,
    };
    let rest = match e_place(
        nodes, id, items, sizes, poss, lineidx, crosses, starts, horiz, rev, main_size, acb_w,
        acb_h, fuel, i + 1, flow + 1,
    ) {
        None => {
            return None;
        },
        Some(v) => v,
    };
    let mut out = sub;
    let mut rest2 = rest;
    out.append(&mut rest2);
    Some(out)
}

/// Compute the geometry entries of `root`'s subtree for the given available
/// space; the order is parent before descendants.
pub fn compute_entries(
    nodes: &Vec<Option<NodeData>>,
    root: u32,
    aw: i64,
    ah: Option<i64>,
    fuel: usize,
) -> (r: Option<Vec<(u32, ComputedLayout)>>)
    ensures
        match r {
            Option::None => spec_compute(nodes@, root, aw, ah, fuel as nat) is None,
            Option::Some(v) => spec_compute(nodes@, root, aw, ah, fuel as nat) == Some(v@),
        },
{
    if !((root as usize) < nodes.len() && nodes[root as usize].is_some()) {
        let out: Vec<(u32, ComputedLayout)> = Vec::new();
        proof {
            assert(out@ =~= Seq::<(u32, ComputedLayout)>::empty());
        }
        return Some(out);
    }
    let intr = match e_intrinsic(nodes, root, fuel) {
        None => {
            return None;
        },
        Some(v) => v,
    };
    let st = match &nodes[root as usize] {
        Some(nd) => nd.style,
        None => {
            return None;
        },
    };
    let wb = e_smax(aw, 0);
    let w = e_sclamp(
        e_dim_or(&st.width, wb, wb),
        e_dim_min(&st.min_width, wb),
        e_dim_max(&st.max_width, wb),
    );
    let h: i64 = match ah {
        Some(h0) => {
            let hb = e_smax(h0, 0);
            e_sclamp(
                e_dim_or(&st.height, hb, hb),
                e_dim_min(&st.min_height, hb),
                e_dim_max(&st.max_height, hb),
            )
        },
        None => {
            let h0 = match st.height {
                Dim::Length(v) => e_smax(v, 0),
                _ => intr.1,
            };
            e_sclamp(h0, e_min_len(&st.min_height), e_max_len(&st.max_height))
        },
    };
    e_layout(nodes, root, 0, 0, w, h, w, h, fuel)
}

/// A child with the excluded display mode contributes nothing to its
/// container's sizing: the item list and the intrinsic-size accumulation
/// over the child list are exactly what they are without it.
pub proof fn lemma_excluded_child_contributes_nothing(
    s: Seq<Option<NodeData>>,
    kids: Seq<u32>,
    horiz: bool,
    main_size: i64,
    cross_size: i64,
    parent_align: AlignItems,
    gap: i64,
    fuel: nat,
    i: int,
)
    requires
        0 <= i < kids.len(),
        live_node(s, kids[i]),
        node_of(s, kids[i]).style.display is Gone,
        fuel > 0,
    ensures
        spec_items(s, kids, horiz, main_size, cross_size, parent_align, fuel, i) == spec_items(
            s,
            kids,
            horiz,
            main_size,
            cross_size,
            parent_align,
            fuel,
            i + 1,
        ),
        spec_intrinsic_kids(s, kids, horiz, gap, fuel, i) == spec_intrinsic_kids(
            s,
            kids,
            horiz,
            gap,
            fuel,
            i + 1,
        ),
{
}

/// The hypothetical outer main size of an item for line partitioning: its
/// clamped basis plus main-axis margins.
pub open spec fn spec_item_outer(it: FlexItem) -> i64 {
    sadd(sadd(sclamp(it.basis, smax(it.main_min, 0), it.main_max), it.m_start), it.m_end)
}

/// The first index past the flex line that starts at `j`: items are taken
/// greedily while the accumulated outer sizes with gaps fit `ms`; a line
/// always takes at least one item.
pub open spec fn spec_line_end(items: Seq<FlexItem>, ms: i64, gap: i64, j: int, acc: i64, n: i64) -> int
    decreases items.len() - j,
{
    if j < 0 || j >= items.len() {
        j
    } else {
        let o = spec_item_outer(items[j]);
        let with = if n > 0 {
            sadd(sadd(acc, gap), o)
        } else {
            o
        };
        if n > 0 && with > ms {
            j
        } else {
            spec_line_end(items, ms, gap, j + 1, with, sadd(n, 1))
        }
    }
}

fn e_line_end(items: &Vec<FlexItem>, ms: i64, gap: i64, j: usize, acc: i64, n: i64) -> (r: usize)
    requires
        j <= items@.len(),
    ensures
        r == spec_line_end(items@, ms, gap, j as int, acc, n),
        j <= r <= items@.len(),
    decreases items@.len() - j,
{
    if j >= items.len() {
        j
    } else {
        let o = e_sadd(
            e_sadd(e_sclamp(items[j].basis, e_smax(items[j].main_min, 0), items[j].main_max), items[j].m_start),
            items[j].m_end,
        );
        let with = if n > 0 {
            e_sadd(e_sadd(acc, gap), o)
        } else {
            o
        };
        if n > 0 && with > ms {
            j
        } else {
            e_line_end(items, ms, gap, j + 1, with, e_sadd(n, 1))
        }
    }
}

/// The hypothetical cross size of a line: the maximum clamped outer cross
/// size of its items.
pub open spec fn spec_line_cross_hypo(line: Seq<FlexItem>, i: int) -> i64
    decreases line.len() - i,
{
    if i < 0 || i >= line.len() {
        0
    } else {
        let o = sadd(
            sadd(
                sclamp(line[i].cross_hypo, smax(line[i].cross_min, 0), line[i].cross_max),
                line[i].cm_start,
            ),
            line[i].cm_end,
        );
        smax(o, spec_line_cross_hypo(line, i + 1))
    }
}

fn e_line_cross_hypo(line: &Vec<FlexItem>, i: usize) -> (r: i64)
    ensures
        r == spec_line_cross_hypo(line@, i as int),
    decreases line@.len() - i,
{
    if i >= line.len() {
        0
    } else {
        let o = e_sadd(
            e_sadd(
                e_sclamp(line[i].cross_hypo, e_smax(line[i].cross_min, 0), line[i].cross_max),
                line[i].cm_start,
            ),
            line[i].cm_end,
        );
        e_smax(o, e_line_cross_hypo(line, i + 1))
    }
}

/// Leading space before the first line for an align-content mode; `Stretch`
/// consumes the space by growing the lines instead.
pub open spec fn spec_ac_lead(ac: AlignContent, leftover: i64, k: i64) -> i64 {
    match ac {
        AlignContent::FlexStart => 0,
        AlignContent::FlexEnd => leftover,
        AlignContent::Center => shalf(leftover),
        AlignContent::SpaceBetween => 0,
        AlignContent::SpaceAround => if leftover > 0 && k > 0 {
            shalf(sdivp(leftover, k))
        } else {
            0
        },
        AlignContent::SpaceEvenly => if leftover > 0 && k >= 0 {
            sdivp(leftover, sadd(k, 1))
        } else {
            0
        },
        AlignContent::Stretch => 0,
    }
}

/// Extra space between adjacent lines for an align-content mode.
pub open spec fn spec_ac_betw(ac: AlignContent, leftover: i64, k: i64) -> i64 {
    match ac {
        AlignContent::SpaceBetween => if leftover > 0 && k > 1 {
            sdivp(leftover, ssub(k, 1))
        } else {
            0
        },
        AlignContent::SpaceAround => if leftover > 0 && k > 0 {
            sdivp(leftover, k)
        } else {
            0
        },
        AlignContent::SpaceEvenly => if leftover > 0 && k >= 0 {
            sdivp(leftover, sadd(k, 1))
        } else {
            0
        },
        _ => 0,
    }
}

fn e_ac_lead(ac: &AlignContent, leftover: i64, k: i64) -> (r: i64)
    ensures
        r == spec_ac_lead(*ac, leftover, k),
{
    match ac {
        AlignContent::FlexStart => 0,
        AlignContent::FlexEnd => leftover,
        AlignContent::Center => e_shalf(leftover),
        AlignContent::SpaceBetween => 0,
        AlignContent::SpaceAround => if leftover > 0 && k > 0 {
            e_shalf(e_sdivp(leftover, k))
        } else {
            0
        },
        AlignContent::SpaceEvenly => if leftover > 0 && k >= 0 {
            e_sdivp(leftover, e_sadd(k, 1))
        } else {
            0
        },
        AlignContent::Stretch => 0,
    }
}

fn e_ac_betw(ac: &AlignContent, leftover: i64, k: i64) -> (r: i64)
    ensures
        r == spec_ac_betw(*ac, leftover, k),
{
    match ac {
        AlignContent::SpaceBetween => if leftover > 0 && k > 1 {
            e_sdivp(leftover, e_ssub(k, 1))
        } else {
            0
        },
        AlignContent::SpaceAround => if leftover > 0 && k > 0 {
            e_sdivp(leftover, k)
        } else {
            0
        },
        AlignContent::SpaceEvenly => if leftover > 0 && k >= 0 {
            e_sdivp(leftover, e_sadd(k, 1))
        } else {
            0
        },
        _ => 0,
    }
}

/// Every line grown by the same stretch amount.
pub open spec fn spec_add_each(xs: Seq<i64>, d: i64, i: int) -> Seq<i64>
    decreases xs.len() - i,
{
    if i < 0 || i >= xs.len() {
        Seq::<i64>::empty()
    } else {
        seq![sadd(xs[i], d)] + spec_add_each(xs, d, i + 1)
    }
}

fn e_add_each(xs: &Vec<i64>, d: i64, i: usize) -> (r: Vec<i64>)
    ensures
        r@ == spec_add_each(xs@, d, i as int),
    decreases xs@.len() - i,
{
    if i >= xs.len() {
        let out: Vec<i64> = Vec::new();
        proof {
            assert(out@ =~= spec_add_each(xs@, d, i as int));
        }
        return out;
    }
    let rest = e_add_each(xs, d, i + 1);
    let mut out: Vec<i64> = Vec::new();
    out.push(e_sadd(xs[i], d));
    let mut rest2 = rest;
    out.append(&mut rest2);
    proof {
        assert(out@ =~= spec_add_each(xs@, d, i as int));
    }
    out
}

/// Cross-axis start coordinates of the lines, given their sizes and the
/// spacing between them.
pub open spec fn spec_line_starts(crosses: Seq<i64>, step: i64, i: int, cursor: i64) -> Seq<i64>
    decreases crosses.len() - i,
{
    if i < 0 || i >= crosses.len() {
        Seq::<i64>::empty()
    } else {
        seq![cursor] + spec_line_starts(crosses, step, i + 1, sadd(sadd(cursor, crosses[i]), step))
    }
}

fn e_line_starts(crosses: &Vec<i64>, step: i64, i: usize, cursor: i64) -> (r: Vec<i64>)
    ensures
        r@ == spec_line_starts(crosses@, step, i as int, cursor),
    decreases crosses@.len() - i,
{
    if i >= crosses.len() {
        let out: Vec<i64> = Vec::new();
        proof {
            assert(out@ =~= spec_line_starts(crosses@, step, i as int, cursor));
        }
        return out;
    }
    let rest = e_line_starts(crosses, step, i + 1, e_sadd(e_sadd(cursor, crosses[i]), step));
    let mut out: Vec<i64> = Vec::new();
    out.push(cursor);
    let mut rest2 = rest;
    out.append(&mut rest2);
    proof {
        assert(out@ =~= spec_line_starts(crosses@, step, i as int, cursor));
    }
    out
}

/// Line starts mirrored for reverse wrapping: each line is placed from the
/// cross-axis end instead.
pub open spec fn spec_mirror_starts(starts: Seq<i64>, crosses: Seq<i64>, total: i64, i: int) -> Seq<i64>
    decreases starts.len() - i,
{
    if i < 0 || i >= starts.len() {
        Seq::<i64>::empty()
    } else {
        let c = if 0 <= i < crosses.len() {
            crosses[i]
        } else {
            0
        };
        seq![ssub(ssub(total, starts[i]), c)] + spec_mirror_starts(starts, crosses, total, i + 1)
    }
}

fn e_mirror_starts(starts: &Vec<i64>, crosses: &Vec<i64>, total: i64, i: usize) -> (r: Vec<i64>)
    ensures
        r@ == spec_mirror_starts(starts@, crosses@, total, i as int),
    decreases starts@.len() - i,
{
    if i >= starts.len() {
        let out: Vec<i64> = Vec::new();
        proof {
            assert(out@ =~= spec_mirror_starts(starts@, crosses@, total, i as int));
        }
        return out;
    }
    let c = if i < crosses.len() {
        crosses[i]
    } else {
        0
    };
    let rest = e_mirror_starts(starts, crosses, total, i + 1);
    let mut out: Vec<i64> = Vec::new();
    out.push(e_ssub(e_ssub(total, starts[i]), c));
    let mut rest2 = rest;
    out.append(&mut rest2);
    proof {
        assert(out@ =~= spec_mirror_starts(starts@, crosses@, total, i as int));
    }
    out
}

/// A constant sequence (one line index per item of a line).
pub open spec fn spec_repeat(v: i64, n: int) -> Seq<i64>
    decreases n,
{
    if n <= 0 {
        Seq::<i64>::empty()
    } else {
        seq![v] + spec_repeat(v, n - 1)
    }
}

fn e_repeat(v: i64, n: usize) -> (r: Vec<i64>)
    ensures
        r@ == spec_repeat(v, n as int),
    decreases n,
{
    if n == 0 {
        let out: Vec<i64> = Vec::new();
        proof {
            assert(out@ =~= spec_repeat(v, n as int));
        }
        return out;
    }
    let rest = e_repeat(v, n - 1);
    let mut out: Vec<i64> = Vec::new();
    out.push(v);
    let mut rest2 = rest;
    out.append(&mut rest2);
    proof {
        assert(out@ =~= spec_repeat(v, n as int));
    }
    out
}

/// Per-line resolution, flattened in item order: for the lines from item
/// `i` on, the final main sizes, the main positions within each line, the
/// line index of each item, and the list of hypothetical line cross sizes.
pub open spec fn spec_pass1(
    items: Seq<FlexItem>,
    ms: i64,
    gap: i64,
    justify: JustifyContent,
    wrap_on: bool,
    i: int,
    lineno: i64,
) -> (Seq<i64>, Seq<i64>, Seq<i64>, Seq<i64>)
    decreases items.len() - i,
{
    if i < 0 || i >= items.len() {
        (Seq::<i64>::empty(), Seq::<i64>::empty(), Seq::<i64>::empty(), Seq::<i64>::empty())
    } else {
        let end0 = if wrap_on {
            spec_line_end(items, ms, gap, i, 0, 0)
        } else {
            items.len() as int
        };
        let end = if end0 <= i {
            i + 1
        } else if end0 > items.len() {
            items.len() as int
        } else {
            end0
        };
        let line = items.subrange(i, end);
        let n = line.len() as i64;
        let margins = spec_sum_margins(line, 0);
        let gaps = if n > 0 {
            smul(gap, ssub(n, 1))
        } else {
            0
        };
        let avail = ssub(ms, sadd(gaps, margins));
        let sizes = spec_resolve_flex(line, avail);
        let used = sadd(sadd(spec_sum_sizes(sizes, 0), margins), gaps);
        let leftover = ssub(ms, used);
        let lead = spec_lead(justify, leftover, n);
        let betw = spec_betw(justify, leftover, n);
        let step = sadd(gap, betw);
        let poss = spec_positions(line, sizes, step, 0, lead);
        let lcross = spec_line_cross_hypo(line, 0);
        let rest = spec_pass1(items, ms, gap, justify, wrap_on, end, sadd(lineno, 1));
        (sizes + rest.0, poss + rest.1, spec_repeat(lineno, end - i) + rest.2, seq![lcross] + rest.3)
    }
}

/// Copy of the items in `[a, b)`.
fn e_slice(items: &Vec<FlexItem>, a: usize, b: usize) -> (r: Vec<FlexItem>)
    requires
        a <= b <= items@.len(),
    ensures
        r@ == items@.subrange(a as int, b as int),
{
    let mut out: Vec<FlexItem> = Vec::new();
    let mut k: usize = a;
    while k < b
        invariant
            a <= k <= b <= items@.len(),
            out@ == items@.subrange(a as int, k as int),
        decreases b - k,
    {
        out.push(items[k]);
        proof {
            assert(out@ =~= items@.subrange(a as int, k as int + 1));
        }
        k = k + 1;
    }
    out
}

fn e_pass1(
    items: &Vec<FlexItem>,
    ms: i64,
    gap: i64,
    justify: JustifyContent,
    wrap_on: bool,
    i: usize,
    lineno: i64,
) -> (r: (Vec<i64>, Vec<i64>, Vec<i64>, Vec<i64>))
    ensures
        r.0@ == spec_pass1(items@, ms, gap, justify, wrap_on, i as int, lineno).0,
        r.1@ == spec_pass1(items@, ms, gap, justify, wrap_on, i as int, lineno).1,
        r.2@ == spec_pass1(items@, ms, gap, justify, wrap_on, i as int, lineno).2,
        r.3@ == spec_pass1(items@, ms, gap, justify, wrap_on, i as int, lineno).3,
    decreases items@.len() - i,
{
    if i >= items.len() {
        let a: Vec<i64> = Vec::new();
        let b: Vec<i64> = Vec::new();
        let c: Vec<i64> = Vec::new();
        let d: Vec<i64> = Vec::new();
        proof {
            assert(a@ =~= Seq::<i64>::empty());
            assert(b@ =~= Seq::<i64>::empty());
            assert(c@ =~= Seq::<i64>::empty());
            assert(d@ =~= Seq::<i64>::empty());
        }
        return (a, b, c, d);
    }
    let end0: usize = if wrap_on {
        e_line_end(items, ms, gap, i, 0, 0)
    } else {
        items.len()
    };
    let end: usize = if end0 <= i {
        i + 1
    } else if end0 > items.len() {
        items.len()
    } else {
        end0
    };
    let line = e_slice(items, i, end);
    let n: i64 = line.len() as i64;
    let margins = e_sum_margins(&line, 0);
    let gaps = if n > 0 {
        e_smul(gap, e_ssub(n, 1))
    } else {
        0
    };
    let avail = e_ssub(ms, e_sadd(gaps, margins));
    let sizes = e_resolve_flex(&line, avail);
    let used = e_sadd(e_sadd(e_sum_sizes(&sizes, 0), margins), gaps);
    let leftover = e_ssub(ms, used);
    let lead = e_lead(&justify, leftover, n);
    let betw = e_betw(&justify, leftover, n);
    let step = e_sadd(gap, betw);
    let poss = e_positions(&line, &sizes, step, 0, lead);
    let lcross = e_line_cross_hypo(&line, 0);
    let rest = e_pass1(items, ms, gap, justify, wrap_on, end, e_sadd(lineno, 1));
    let mut o0 = sizes;
    let mut r0 = rest.0;
    o0.append(&mut r0);
    let mut o1 = poss;
    let mut r1 = rest.1;
    o1.append(&mut r1);
    let mut o2 = e_repeat(lineno, end - i);
    let mut r2 = rest.2;
    o2.append(&mut r2);
    let mut o3: Vec<i64> = Vec::new();
    o3.push(lcross);
    let mut r3 = rest.3;
    o3.append(&mut r3);
    proof {
        assert(o3@ =~= seq![spec_line_cross_hypo(items@.subrange(i as int, end as int), 0)]
            + spec_pass1(items@, ms, gap, justify, wrap_on, end as int, sadd(lineno, 1)).3);
    }
    (o0, o1, o2, o3)
}

/// The border box of one in-flow item: main/cross coordinates and sizes
/// mapped to x/y/width/height.
pub open spec fn spec_flow_box(
    it: FlexItem,
    m: i64,
    pos: i64,
    lc: i64,
    ls: i64,
    horiz: bool,
    rev: bool,
    main_size: i64,
) -> (i64, i64, i64, i64) {
    let mcoord = if rev {
        ssub(ssub(main_size, pos), m)
    } else {
        pos
    };
    let csize = spec_cross_size(it, lc);
    let coff = sadd(ls, spec_cross_off(it, lc, csize));
    if horiz {
        (mcoord, coff, m, csize)
    } else {
        (coff, mcoord, csize, m)
    }
}

fn e_flow_box(
    it: &FlexItem,
    m: i64,
    pos: i64,
    lc: i64,
    ls: i64,
    horiz: bool,
    rev: bool,
    main_size: i64,
) -> (r: (i64, i64, i64, i64))
    ensures
        r == spec_flow_box(*it, m, pos, lc, ls, horiz, rev, main_size),
{
    let mcoord = if rev {
        e_ssub(e_ssub(main_size, pos), m)
    } else {
        pos
    };
    let csize = e_cross_size(it, lc);
    let coff = e_sadd(ls, e_cross_off(it, lc, csize));
    if horiz {
        (mcoord, coff, m, csize)
    } else {
        (coff, mcoord, csize, m)
    }
}

/// Final line cross sizes and cross-axis starts: without wrapping the one
/// line fills the container cross axis; with wrapping, stretch grows the
/// lines and align-content places them, reversed for reverse wrapping.
pub open spec fn spec_line_layout(
    crosses0: Seq<i64>,
    wrap_on: bool,
    wrap_rev: bool,
    cross_size: i64,
    cross_gap: i64,
    ac: AlignContent,
) -> (Seq<i64>, Seq<i64>) {
    if !wrap_on {
        (spec_repeat(cross_size, crosses0.len() as int), spec_repeat(0, crosses0.len() as int))
    } else {
        let k = crosses0.len() as i64;
        let total = spec_sum_sizes(crosses0, 0);
        let gapsc = if k > 0 {
            smul(cross_gap, ssub(k, 1))
        } else {
            0
        };
        let leftc = ssub(cross_size, sadd(total, gapsc));
        let extra = if ac is Stretch && leftc > 0 && k > 0 {
            sdivp(leftc, k)
        } else {
            0
        };
        let cr = spec_add_each(crosses0, extra, 0);
        let leftc2 = ssub(leftc, smul(extra, k));
        let leadc = spec_ac_lead(ac, leftc2, k);
        let betwc = spec_ac_betw(ac, leftc2, k);
        let stepc = sadd(cross_gap, betwc);
        let sts = spec_line_starts(cr, stepc, 0, leadc);
        if wrap_rev {
            (cr, spec_mirror_starts(sts, cr, cross_size, 0))
        } else {
            (cr, sts)
        }
    }
}

fn e_line_layout(
    crosses0: &Vec<i64>,
    wrap_on: bool,
    wrap_rev: bool,
    cross_size: i64,
    cross_gap: i64,
    ac: &AlignContent,
) -> (r: (Vec<i64>, Vec<i64>))
    ensures
        r.0@ == spec_line_layout(crosses0@, wrap_on, wrap_rev, cross_size, cross_gap, *ac).0,
        r.1@ == spec_line_layout(crosses0@, wrap_on, wrap_rev, cross_size, cross_gap, *ac).1,
{
    if !wrap_on {
        let cr = e_repeat(cross_size, crosses0.len());
        let sts = e_repeat(0, crosses0.len());
        (cr, sts)
    } else {
        let k: i64 = crosses0.len() as i64;
        let total = e_sum_sizes(crosses0, 0);
        let gapsc = if k > 0 {
            e_smul(cross_gap, e_ssub(k, 1))
        } else {
            0
        };
        let leftc = e_ssub(cross_size, e_sadd(total, gapsc));
        let extra = if matches!(ac, AlignContent::Stretch) && leftc > 0 && k > 0 {
            e_sdivp(leftc, k)
        } else {
            0
        };
        let cr = e_add_each(crosses0, extra, 0);
        let leftc2 = e_ssub(leftc, e_smul(extra, k));
        let leadc = e_ac_lead(ac, leftc2, k);
        let betwc = e_ac_betw(ac, leftc2, k);
        let stepc = e_sadd(cross_gap, betwc);
        let sts = e_line_starts(&cr, stepc, 0, leadc);
        if wrap_rev {
            let m = e_mirror_starts(&sts, &cr, cross_size, 0);
            (cr, m)
        } else {
            (cr, sts)
        }
    }
}

} // verus!
