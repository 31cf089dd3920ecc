use flextree::layout::ComputedLayout;
use flextree::style::{Dimension, Edges, LayoutStyle};
use flextree::tree::{LayoutError, LayoutTree, StructureReason};

fn px(v: i64) -> Dimension {
    Dimension { value: v, unit: "px".to_string() }
}

fn pct(v: i64) -> Dimension {
    Dimension { value: v, unit: "%".to_string() }
}

fn auto_dim() -> Dimension {
    Dimension { value: 0, unit: "auto".to_string() }
}

fn row_container(width: i64) -> LayoutStyle {
    let mut s = LayoutStyle::empty();
    s.flex_direction = Some("row".to_string());
    s.width = Some(px(width));
    s
}

#[test]
fn ids_strictly_increase_even_across_removal() {
    let mut t = LayoutTree::new();
    let a = t.create_node(LayoutStyle::empty()).unwrap();
    let b = t.create_node(LayoutStyle::empty()).unwrap();
    assert_eq!(a, 0);
    assert_eq!(b, 1);
    t.remove_node(a).unwrap();
    let c = t.create_node(LayoutStyle::empty()).unwrap();
    assert_eq!(c, 2);
    assert!(c > b && b > a);
}

#[test]
fn unknown_ids_report_node_not_found() {
    let mut t = LayoutTree::new();
    assert_eq!(t.get_layout(7), Err(LayoutError::NodeNotFound(7)));
    assert_eq!(t.get_child_count(7), Err(LayoutError::NodeNotFound(7)));
    assert_eq!(t.mark_dirty(7), Err(LayoutError::NodeNotFound(7)));
    assert_eq!(t.remove_node(7), Err(LayoutError::NodeNotFound(7)));
    assert_eq!(t.set_text_dimensions(7, 1, 1), Err(LayoutError::NodeNotFound(7)));
    assert_eq!(t.set_display_none(7), Err(LayoutError::NodeNotFound(7)));
    assert_eq!(t.set_display_flex(7), Err(LayoutError::NodeNotFound(7)));
    assert_eq!(t.compute_layout(7, 100, None), Err(LayoutError::NodeNotFound(7)));
    let root = t.create_node(LayoutStyle::empty()).unwrap();
    assert_eq!(t.insert_child(root, 9, 0), Err(LayoutError::NodeNotFound(9)));
    assert_eq!(t.insert_child(9, root, 0), Err(LayoutError::NodeNotFound(9)));
}

#[test]
fn insert_child_index_out_of_range_is_structural() {
    let mut t = LayoutTree::new();
    let p = t.create_node(LayoutStyle::empty()).unwrap();
    let c = t.create_node(LayoutStyle::empty()).unwrap();
    assert_eq!(
        t.insert_child(p, c, 1),
        Err(LayoutError::Structure(StructureReason::IndexOutOfRange))
    );
    assert_eq!(t.insert_child(p, c, 0), Ok(()));
    assert_eq!(t.get_child_count(p), Ok(1));
}

#[test]
fn insert_attached_child_is_structural() {
    let mut t = LayoutTree::new();
    let p1 = t.create_node(LayoutStyle::empty()).unwrap();
    let p2 = t.create_node(LayoutStyle::empty()).unwrap();
    let c = t.create_node(LayoutStyle::empty()).unwrap();
    t.insert_child(p1, c, 0).unwrap();
    assert_eq!(
        t.insert_child(p2, c, 0),
        Err(LayoutError::Structure(StructureReason::AlreadyAttached))
    );
}

#[test]
fn insert_creating_a_cycle_is_structural() {
    let mut t = LayoutTree::new();
    let a = t.create_node(LayoutStyle::empty()).unwrap();
    let b = t.create_node(LayoutStyle::empty()).unwrap();
    t.insert_child(a, b, 0).unwrap();
    assert_eq!(
        t.insert_child(b, a, 0),
        Err(LayoutError::Structure(StructureReason::WouldCycle))
    );
    assert_eq!(
        t.insert_child(a, a, 0),
        Err(LayoutError::Structure(StructureReason::WouldCycle))
    );
}

#[test]
fn removing_the_same_child_twice_fails_the_second_time() {
    let mut t = LayoutTree::new();
    let p = t.create_node(LayoutStyle::empty()).unwrap();
    let c = t.create_node(LayoutStyle::empty()).unwrap();
    t.insert_child(p, c, 0).unwrap();
    assert_eq!(t.remove_child(p, c), Ok(()));
    assert_eq!(
        t.remove_child(p, c),
        Err(LayoutError::Structure(StructureReason::NotAChild))
    );
}

#[test]
fn remove_child_preserves_order_of_remaining_children() {
    let mut t = LayoutTree::new();
    let p = t.create_node(row_container(100)).unwrap();
    let a = t.create_node(row_container(10)).unwrap();
    let b = t.create_node(row_container(20)).unwrap();
    let c = t.create_node(row_container(30)).unwrap();
    t.insert_child(p, a, 0).unwrap();
    t.insert_child(p, b, 1).unwrap();
    t.insert_child(p, c, 2).unwrap();
    t.remove_child(p, b).unwrap();
    assert_eq!(t.get_child_count(p), Ok(2));
    t.compute_layout(p, 100, None).unwrap();
    assert_eq!(t.get_layout(a).unwrap().x, 0);
    assert_eq!(t.get_layout(c).unwrap().x, 10);
}

#[test]
fn remove_node_orphans_children() {
    let mut t = LayoutTree::new();
    let p = t.create_node(LayoutStyle::empty()).unwrap();
    let c = t.create_node(LayoutStyle::empty()).unwrap();
    let g = t.create_node(LayoutStyle::empty()).unwrap();
    t.insert_child(p, c, 0).unwrap();
    t.insert_child(c, g, 0).unwrap();
    t.remove_node(c).unwrap();
    assert_eq!(t.get_layout(c), Err(LayoutError::NodeNotFound(c)));
    // the grandchild stays addressable and can be reattached
    assert_eq!(t.get_child_count(g), Ok(0));
    assert_eq!(t.insert_child(p, g, 0), Ok(()));
}

#[test]
fn two_grow_children_split_the_space_after_the_gap() {
    let mut t = LayoutTree::new();
    let mut cs = row_container(100);
    cs.gap = Some(10);
    let root = t.create_node(cs).unwrap();
    let mut child = LayoutStyle::empty();
    child.flex_basis = Some(auto_dim());
    child.width = Some(auto_dim());
    child.flex_grow = Some(1);
    let a = t.create_node(child.clone()).unwrap();
    let b = t.create_node(child).unwrap();
    t.insert_child(root, a, 0).unwrap();
    t.insert_child(root, b, 1).unwrap();
    t.compute_layout(root, 100, None).unwrap();
    let la = t.get_layout(a).unwrap();
    let lb = t.get_layout(b).unwrap();
    assert_eq!(la.width, 45);
    assert_eq!(lb.width, 45);
    assert_eq!(la.x, 0);
    assert_eq!(lb.x, 55);
}

#[test]
fn space_between_splits_leftover_into_internal_gaps_only() {
    let mut t = LayoutTree::new();
    let mut cs = row_container(100);
    cs.justify_content = Some("space-between".to_string());
    let root = t.create_node(cs).unwrap();
    let mut ids = Vec::new();
    for _ in 0..3 {
        let mut child = LayoutStyle::empty();
        child.width = Some(px(10));
        let c = t.create_node(child).unwrap();
        let n = t.get_child_count(root).unwrap();
        t.insert_child(root, c, n).unwrap();
        ids.push(c);
    }
    t.compute_layout(root, 100, None).unwrap();
    assert_eq!(t.get_layout(ids[0]).unwrap().x, 0);
    assert_eq!(t.get_layout(ids[1]).unwrap().x, 45);
    assert_eq!(t.get_layout(ids[2]).unwrap().x, 90);
}

#[test]
fn max_content_height_of_an_empty_grow_child_is_zero() {
    let mut t = LayoutTree::new();
    let mut rs = LayoutStyle::empty();
    rs.width = Some(px(100));
    let root = t.create_node(rs).unwrap();
    let mut cs = LayoutStyle::empty();
    cs.display = Some("flex".to_string());
    cs.flex_direction = Some("column".to_string());
    cs.flex_grow = Some(1);
    let child = t.create_node(cs).unwrap();
    t.insert_child(root, child, 0).unwrap();
    t.compute_layout(root, 100, None).unwrap();
    assert_eq!(t.get_layout(child).unwrap().height, 0);
}

#[test]
fn measurement_marks_dirty_and_compute_reflects_it() {
    let mut t = LayoutTree::new();
    let root = t.create_node(row_container(100)).unwrap();
    let leaf = t.create_node(LayoutStyle::empty()).unwrap();
    t.insert_child(root, leaf, 0).unwrap();
    t.set_text_dimensions(leaf, 40, 20).unwrap();
    t.compute_layout(root, 100, None).unwrap();
    assert_eq!(t.get_layout(leaf).unwrap().width, 40);
    t.set_text_dimensions(leaf, 60, 20).unwrap();
    t.compute_layout(root, 100, None).unwrap();
    assert_eq!(t.get_layout(leaf).unwrap().width, 60);
}

#[test]
fn display_none_subtree_reports_zero_and_frees_its_space() {
    let mut t = LayoutTree::new();
    let root = t.create_node(row_container(100)).unwrap();
    let mut grow = LayoutStyle::empty();
    grow.flex_grow = Some(1);
    let a = t.create_node(grow.clone()).unwrap();
    let b = t.create_node(grow).unwrap();
    let b_kid = t.create_node(LayoutStyle::empty()).unwrap();
    t.insert_child(root, a, 0).unwrap();
    t.insert_child(root, b, 1).unwrap();
    t.insert_child(b, b_kid, 0).unwrap();
    t.set_text_dimensions(b_kid, 30, 30).unwrap();
    t.set_display_none(b).unwrap();
    t.compute_layout(root, 100, None).unwrap();
    // the hidden child and its descendant report the zero box
    let zero = ComputedLayout {
        x: 0,
        y: 0,
        width: 0,
        height: 0,
        padding_top: 0,
        padding_right: 0,
        padding_bottom: 0,
        padding_left: 0,
        border_top: 0,
        border_right: 0,
        border_bottom: 0,
        border_left: 0,
    };
    assert_eq!(t.get_layout(b).unwrap(), zero);
    assert_eq!(t.get_layout(b_kid).unwrap(), zero);
    // the visible sibling takes the whole line
    assert_eq!(t.get_layout(a).unwrap().width, 100);
    // switching display back restores participation: b's measured content
    // gives it flex basis 30, and the remaining 70 is split by grow weight
    t.set_display_flex(b).unwrap();
    t.compute_layout(root, 100, None).unwrap();
    assert_eq!(t.get_layout(a).unwrap().width, 35);
    assert_eq!(t.get_layout(b).unwrap().width, 65);
}

#[test]
fn repeated_computation_gives_identical_geometry() {
    let mut t = LayoutTree::new();
    let mut cs = row_container(90);
    cs.justify_content = Some("space-evenly".to_string());
    let root = t.create_node(cs).unwrap();
    let mut child = LayoutStyle::empty();
    child.width = Some(px(20));
    child.height = Some(px(10));
    let a = t.create_node(child.clone()).unwrap();
    let b = t.create_node(child).unwrap();
    t.insert_child(root, a, 0).unwrap();
    t.insert_child(root, b, 1).unwrap();
    t.compute_layout(root, 90, Some(50)).unwrap();
    let first = (t.get_layout(root).unwrap(), t.get_layout(a).unwrap(), t.get_layout(b).unwrap());
    t.compute_layout(root, 90, Some(50)).unwrap();
    let second = (t.get_layout(root).unwrap(), t.get_layout(a).unwrap(), t.get_layout(b).unwrap());
    assert_eq!(first, second);
}

#[test]
fn unspecified_edges_resolve_to_zero() {
    let mut t = LayoutTree::new();
    let mut s = LayoutStyle::empty();
    s.width = Some(px(50));
    s.height = Some(px(50));
    s.padding = Some(Edges { top: Some(5), right: None, bottom: None, left: None });
    // margin and border wholly unspecified
    let root = t.create_node(s).unwrap();
    t.compute_layout(root, 50, Some(50)).unwrap();
    let l = t.get_layout(root).unwrap();
    assert_eq!(l.padding_top, 5);
    assert_eq!(l.padding_right, 0);
    assert_eq!(l.padding_bottom, 0);
    assert_eq!(l.padding_left, 0);
    assert_eq!(l.border_top, 0);
    assert_eq!(l.border_right, 0);
    assert_eq!(l.border_bottom, 0);
    assert_eq!(l.border_left, 0);
}

#[test]
fn unrecognized_unit_tags_are_absolute_lengths() {
    let mut t = LayoutTree::new();
    let mut s = LayoutStyle::empty();
    s.width = Some(Dimension { value: 30, unit: "em".to_string() });
    s.flex_direction = Some("row".to_string());
    let root = t.create_node(s).unwrap();
    t.compute_layout(root, 100, None).unwrap();
    assert_eq!(t.get_layout(root).unwrap().width, 30);
}

#[test]
fn percent_resolves_against_the_containing_block() {
    let mut t = LayoutTree::new();
    let root = t.create_node(row_container(200)).unwrap();
    let mut cs = LayoutStyle::empty();
    cs.width = Some(pct(50));
    let child = t.create_node(cs).unwrap();
    t.insert_child(root, child, 0).unwrap();
    t.compute_layout(root, 200, None).unwrap();
    assert_eq!(t.get_layout(child).unwrap().width, 100);
}

#[test]
fn shrink_splits_the_deficit() {
    let mut t = LayoutTree::new();
    let root = t.create_node(row_container(100)).unwrap();
    let mut cs = LayoutStyle::empty();
    cs.width = Some(px(100));
    let a = t.create_node(cs.clone()).unwrap();
    let b = t.create_node(cs).unwrap();
    t.insert_child(root, a, 0).unwrap();
    t.insert_child(root, b, 1).unwrap();
    t.compute_layout(root, 100, None).unwrap();
    assert_eq!(t.get_layout(a).unwrap().width, 50);
    assert_eq!(t.get_layout(b).unwrap().width, 50);
    assert_eq!(t.get_layout(b).unwrap().x, 50);
}

#[test]
fn max_width_freezes_a_growing_child() {
    let mut t = LayoutTree::new();
    let root = t.create_node(row_container(100)).unwrap();
    let mut cs = LayoutStyle::empty();
    cs.flex_grow = Some(1);
    cs.max_width = Some(px(30));
    let a = t.create_node(cs).unwrap();
    let mut cs2 = LayoutStyle::empty();
    cs2.flex_grow = Some(1);
    let b = t.create_node(cs2).unwrap();
    t.insert_child(root, a, 0).unwrap();
    t.insert_child(root, b, 1).unwrap();
    t.compute_layout(root, 100, None).unwrap();
    assert_eq!(t.get_layout(a).unwrap().width, 30);
    assert_eq!(t.get_layout(b).unwrap().width, 70);
}

#[test]
fn geometry_defaults_to_zero_before_any_computation() {
    let mut t = LayoutTree::new();
    let n = t.create_node(row_container(40)).unwrap();
    let l = t.get_layout(n).unwrap();
    assert_eq!(l.width, 0);
    assert_eq!(l.height, 0);
    assert_eq!(l.x, 0);
    assert_eq!(l.y, 0);
}

#[test]
fn justify_center_and_flex_end_place_the_line() {
    let mut t = LayoutTree::new();
    let mut cs = row_container(100);
    cs.justify_content = Some("center".to_string());
    let root = t.create_node(cs).unwrap();
    let mut child = LayoutStyle::empty();
    child.width = Some(px(20));
    let a = t.create_node(child).unwrap();
    t.insert_child(root, a, 0).unwrap();
    t.compute_layout(root, 100, None).unwrap();
    assert_eq!(t.get_layout(a).unwrap().x, 40);

    let mut t2 = LayoutTree::new();
    let mut cs2 = row_container(100);
    cs2.justify_content = Some("flex-end".to_string());
    let root2 = t2.create_node(cs2).unwrap();
    let mut child2 = LayoutStyle::empty();
    child2.width = Some(px(20));
    let b = t2.create_node(child2).unwrap();
    t2.insert_child(root2, b, 0).unwrap();
    t2.compute_layout(root2, 100, None).unwrap();
    assert_eq!(t2.get_layout(b).unwrap().x, 80);
}

#[test]
fn stretch_fills_the_cross_axis() {
    let mut t = LayoutTree::new();
    let root = t.create_node(row_container(100)).unwrap();
    let mut cs = LayoutStyle::empty();
    cs.width = Some(px(10));
    let a = t.create_node(cs).unwrap();
    t.insert_child(root, a, 0).unwrap();
    t.compute_layout(root, 100, Some(60)).unwrap();
    assert_eq!(t.get_layout(a).unwrap().height, 60);
}

#[test]
fn unknown_enum_strings_fall_back_to_defaults() {
    let mut t = LayoutTree::new();
    let mut cs = row_container(100);
    // an unrecognized justify value falls back to flex-start
    cs.justify_content = Some("sideways".to_string());
    let root = t.create_node(cs).unwrap();
    let mut child = LayoutStyle::empty();
    child.width = Some(px(20));
    let a = t.create_node(child).unwrap();
    t.insert_child(root, a, 0).unwrap();
    t.compute_layout(root, 100, None).unwrap();
    assert_eq!(t.get_layout(a).unwrap().x, 0);
}

#[test]
fn gap_application_order_lets_axis_gaps_override() {
    let mut t = LayoutTree::new();
    let mut cs = row_container(100);
    cs.gap = Some(10);
    cs.column_gap = Some(4);
    let root = t.create_node(cs).unwrap();
    let mut child = LayoutStyle::empty();
    child.width = Some(px(10));
    let a = t.create_node(child.clone()).unwrap();
    let b = t.create_node(child).unwrap();
    t.insert_child(root, a, 0).unwrap();
    t.insert_child(root, b, 1).unwrap();
    t.compute_layout(root, 100, None).unwrap();
    // the per-axis column gap (4) wins over the combined gap (10)
    assert_eq!(t.get_layout(b).unwrap().x, 14);
}

#[test]
fn error_messages_are_human_readable() {
    let e = LayoutError::NodeNotFound(3);
    assert_eq!(e.message(), "node not found".to_string());
    let s = LayoutError::Structure(StructureReason::NotAChild);
    assert!(s.message().contains("not a child"));
}

#[test]
fn row_reverse_lays_out_from_the_far_edge() {
    let mut t = LayoutTree::new();
    let mut cs = LayoutStyle::empty();
    cs.flex_direction = Some("row-reverse".to_string());
    cs.width = Some(px(100));
    let root = t.create_node(cs).unwrap();
    let mut child = LayoutStyle::empty();
    child.width = Some(px(10));
    let a = t.create_node(child).unwrap();
    t.insert_child(root, a, 0).unwrap();
    t.compute_layout(root, 100, None).unwrap();
    assert_eq!(t.get_layout(a).unwrap().x, 90);
}

#[test]
fn margins_offset_items_and_narrow_the_distributable_space() {
    let mut t = LayoutTree::new();
    let root = t.create_node(row_container(100)).unwrap();
    let mut cs = LayoutStyle::empty();
    cs.flex_grow = Some(1);
    cs.margin = Some(Edges { top: None, right: Some(5), bottom: None, left: Some(5) });
    let a = t.create_node(cs).unwrap();
    t.insert_child(root, a, 0).unwrap();
    t.compute_layout(root, 100, None).unwrap();
    let l = t.get_layout(a).unwrap();
    assert_eq!(l.x, 5);
    assert_eq!(l.width, 90);
}

#[test]
fn space_around_and_space_evenly_exact_positions() {
    let mut t = LayoutTree::new();
    let mut cs = row_container(100);
    cs.justify_content = Some("space-around".to_string());
    let root = t.create_node(cs).unwrap();
    let mut child = LayoutStyle::empty();
    child.width = Some(px(20));
    let a = t.create_node(child.clone()).unwrap();
    let b = t.create_node(child.clone()).unwrap();
    t.insert_child(root, a, 0).unwrap();
    t.insert_child(root, b, 1).unwrap();
    t.compute_layout(root, 100, None).unwrap();
    // leftover 60 over two items: 30 around each, half at the ends
    assert_eq!(t.get_layout(a).unwrap().x, 15);
    assert_eq!(t.get_layout(b).unwrap().x, 65);

    let mut t2 = LayoutTree::new();
    let mut cs2 = row_container(90);
    cs2.justify_content = Some("space-evenly".to_string());
    let root2 = t2.create_node(cs2).unwrap();
    let c = t2.create_node(child.clone()).unwrap();
    let d = t2.create_node(child).unwrap();
    t2.insert_child(root2, c, 0).unwrap();
    t2.insert_child(root2, d, 1).unwrap();
    t2.compute_layout(root2, 90, None).unwrap();
    // leftover 50 into three equal gaps of 16 (integer division)
    assert_eq!(t2.get_layout(c).unwrap().x, 16);
    assert_eq!(t2.get_layout(d).unwrap().x, 52);
}

#[test]
fn column_direction_stacks_children_vertically() {
    let mut t = LayoutTree::new();
    let mut cs = LayoutStyle::empty();
    cs.width = Some(px(100));
    cs.height = Some(px(100));
    let root = t.create_node(cs).unwrap();
    let mut child = LayoutStyle::empty();
    child.height = Some(px(30));
    let a = t.create_node(child.clone()).unwrap();
    let b = t.create_node(child).unwrap();
    t.insert_child(root, a, 0).unwrap();
    t.insert_child(root, b, 1).unwrap();
    t.compute_layout(root, 100, Some(100)).unwrap();
    assert_eq!(t.get_layout(a).unwrap().y, 0);
    assert_eq!(t.get_layout(b).unwrap().y, 30);
    // columns stretch the cross axis by default
    assert_eq!(t.get_layout(a).unwrap().width, 100);
}

#[test]
fn set_style_replaces_the_whole_record() {
    let mut t = LayoutTree::new();
    let root = t.create_node(row_container(100)).unwrap();
    let mut child = LayoutStyle::empty();
    child.width = Some(px(10));
    let a = t.create_node(child).unwrap();
    t.insert_child(root, a, 0).unwrap();
    t.compute_layout(root, 100, None).unwrap();
    assert_eq!(t.get_layout(a).unwrap().width, 10);
    let mut wider = LayoutStyle::empty();
    wider.width = Some(px(25));
    t.set_style(a, wider).unwrap();
    t.compute_layout(root, 100, None).unwrap();
    assert_eq!(t.get_layout(a).unwrap().width, 25);
}

#[test]
fn mark_dirty_succeeds_on_live_nodes() {
    let mut t = LayoutTree::new();
    let root = t.create_node(LayoutStyle::empty()).unwrap();
    let a = t.create_node(LayoutStyle::empty()).unwrap();
    t.insert_child(root, a, 0).unwrap();
    assert_eq!(t.mark_dirty(a), Ok(()));
}

#[test]
fn absolute_children_leave_the_flow() {
    let mut t = LayoutTree::new();
    let mut cs = row_container(100);
    cs.justify_content = Some("space-between".to_string());
    let root = t.create_node(cs).unwrap();
    let mut fixed = LayoutStyle::empty();
    fixed.width = Some(px(10));
    let a = t.create_node(fixed.clone()).unwrap();
    let b = t.create_node(fixed).unwrap();
    let mut abs = LayoutStyle::empty();
    abs.position = Some("absolute".to_string());
    abs.width = Some(px(40));
    abs.height = Some(px(40));
    let c = t.create_node(abs).unwrap();
    t.insert_child(root, a, 0).unwrap();
    t.insert_child(root, c, 1).unwrap();
    t.insert_child(root, b, 2).unwrap();
    t.compute_layout(root, 100, None).unwrap();
    // the absolute child does not take part in distribution or placement
    assert_eq!(t.get_layout(a).unwrap().x, 0);
    assert_eq!(t.get_layout(b).unwrap().x, 90);
    let lc = t.get_layout(c).unwrap();
    assert_eq!(lc.width, 40);
    assert_eq!(lc.height, 40);
    assert_eq!(lc.x, 0);
}

#[test]
fn wrap_opens_a_second_line() {
    let mut t = LayoutTree::new();
    let mut cs = row_container(100);
    cs.flex_wrap = Some("wrap".to_string());
    cs.height = Some(px(40));
    cs.align_content = Some("flex-start".to_string());
    let root = t.create_node(cs).unwrap();
    let mut child = LayoutStyle::empty();
    child.width = Some(px(60));
    child.height = Some(px(10));
    let a = t.create_node(child.clone()).unwrap();
    let b = t.create_node(child).unwrap();
    t.insert_child(root, a, 0).unwrap();
    t.insert_child(root, b, 1).unwrap();
    t.compute_layout(root, 100, Some(40)).unwrap();
    // 60 + 60 does not fit into 100: the second child starts a new line
    assert_eq!(t.get_layout(a).unwrap().x, 0);
    assert_eq!(t.get_layout(a).unwrap().y, 0);
    assert_eq!(t.get_layout(b).unwrap().x, 0);
    assert_eq!(t.get_layout(b).unwrap().y, 10);
}

#[test]
fn align_content_space_between_separates_the_lines() {
    let mut t = LayoutTree::new();
    let mut cs = row_container(100);
    cs.flex_wrap = Some("wrap".to_string());
    cs.height = Some(px(50));
    cs.align_content = Some("space-between".to_string());
    let root = t.create_node(cs).unwrap();
    let mut child = LayoutStyle::empty();
    child.width = Some(px(60));
    child.height = Some(px(10));
    let a = t.create_node(child.clone()).unwrap();
    let b = t.create_node(child).unwrap();
    t.insert_child(root, a, 0).unwrap();
    t.insert_child(root, b, 1).unwrap();
    t.compute_layout(root, 100, Some(50)).unwrap();
    // two 10-high lines in 50: all leftover space sits between them
    assert_eq!(t.get_layout(a).unwrap().y, 0);
    assert_eq!(t.get_layout(b).unwrap().y, 40);
}

#[test]
fn absolute_percent_resolves_against_nearest_absolute_ancestor() {
    let mut t = LayoutTree::new();
    // root (200 wide) > middle absolute box (100 wide) > flex wrapper > abs child at 50%
    let mut rs = row_container(200);
    rs.height = Some(px(100));
    let root = t.create_node(rs).unwrap();
    let mut ms = LayoutStyle::empty();
    ms.position = Some("absolute".to_string());
    ms.width = Some(px(100));
    ms.height = Some(px(100));
    let middle = t.create_node(ms).unwrap();
    let mut ws = LayoutStyle::empty();
    ws.width = Some(px(80));
    ws.height = Some(px(80));
    let wrapper = t.create_node(ws).unwrap();
    let mut abs = LayoutStyle::empty();
    abs.position = Some("absolute".to_string());
    abs.width = Some(pct(50));
    abs.height = Some(px(10));
    let leaf = t.create_node(abs).unwrap();
    t.insert_child(root, middle, 0).unwrap();
    t.insert_child(middle, wrapper, 0).unwrap();
    t.insert_child(wrapper, leaf, 0).unwrap();
    t.compute_layout(root, 200, Some(100)).unwrap();
    // 50% of the nearest absolutely positioned ancestor (100), not of the
    // 80-wide direct parent
    assert_eq!(t.get_layout(leaf).unwrap().width, 50);
}
