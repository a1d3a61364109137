use wasamo_runtime::ir_loader::{
    check_and_strip_header, grid_rects_overlap, is_child_placement_prop, legacy_placement_ir_form,
    materialized_offset_for_declared_slot, plan_tail_range_change, total_materialized_children,
    DeclaredMemberSlot, GridCellRect, IrLoadError, TailRangePlan,
};

fn conditional_slot(live_child: bool) -> DeclaredMemberSlot {
    DeclaredMemberSlot::Conditional(live_child)
}

fn for_loop_slot(live_children: usize) -> DeclaredMemberSlot {
    DeclaredMemberSlot::ForLoop(live_children)
}

#[test]
fn expansion_seam_counts_interleaved_widgets_conditionals_and_for_loops() {
    let mut slots = vec![
        DeclaredMemberSlot::Widget,
        DeclaredMemberSlot::Widget,
        conditional_slot(false),
        DeclaredMemberSlot::Conditional(true),
        DeclaredMemberSlot::ForLoop(3),
        DeclaredMemberSlot::Widget,
    ];

    assert_eq!(
        materialized_offset_for_declared_slot(2, &slots),
        2,
        "preceding widgets contribute one materialised child each"
    );
    assert_eq!(
        materialized_offset_for_declared_slot(3, &slots),
        2,
        "absent preceding conditional contributes no materialised child"
    );
    assert_eq!(
        materialized_offset_for_declared_slot(4, &slots),
        3,
        "present preceding conditional contributes one materialised child"
    );
    assert_eq!(
        materialized_offset_for_declared_slot(5, &slots),
        6,
        "preceding for-loop contributes its live cardinality"
    );
    assert_eq!(
        materialized_offset_for_declared_slot(6, &slots),
        7,
        "mixed widget / absent conditional / present conditional / for-loop prefix"
    );
    assert_eq!(
        total_materialized_children(&slots),
        7,
        "total materialised count is the sum of live slot cardinalities"
    );

    slots[4] = DeclaredMemberSlot::ForLoop(0);
    assert_eq!(
        materialized_offset_for_declared_slot(5, &slots),
        3,
        "zero-cardinality for-loop contributes no materialised children"
    );
    assert_eq!(
        total_materialized_children(&slots),
        4,
        "total count recomputes after for-loop cardinality changes"
    );

    slots[3] = DeclaredMemberSlot::Conditional(false);
    assert_eq!(
        materialized_offset_for_declared_slot(4, &slots),
        2,
        "removing a preceding conditional shifts later materialised indices"
    );
}

#[test]
fn expansion_seam_handles_boundaries_and_total_count() {
    let slots = vec![
        for_loop_slot(0),
        DeclaredMemberSlot::Widget,
        conditional_slot(true),
        for_loop_slot(2),
    ];

    assert_eq!(
        materialized_offset_for_declared_slot(0, &slots),
        0,
        "first declared slot starts at materialised offset zero"
    );
    assert_eq!(
        materialized_offset_for_declared_slot(1, &slots),
        0,
        "leading zero-cardinality slot does not move the offset"
    );
    assert_eq!(
        materialized_offset_for_declared_slot(4, &slots),
        4,
        "offset after the final declared slot equals total materialised children"
    );
    assert_eq!(total_materialized_children(&slots), 4);
}

#[test]
fn tail_range_plan_derives_insert_remove_and_noop_cases() {
    assert_eq!(
        plan_tail_range_change(2, 5),
        TailRangePlan::Insert { start: 2, count: 3 },
        "tail growth inserts the new suffix"
    );
    assert_eq!(
        plan_tail_range_change(5, 2),
        TailRangePlan::Remove {
            tail_first_indices: vec![4, 3, 2],
        },
        "tail shrink removes from the old tail toward the retained prefix"
    );
    assert_eq!(
        plan_tail_range_change(3, 3),
        TailRangePlan::NoOp,
        "same-length reset is a no-op for structural range planning"
    );
    assert_eq!(
        plan_tail_range_change(0, 0),
        TailRangePlan::NoOp,
        "empty boundary is stable"
    );
    assert_eq!(
        plan_tail_range_change(0, 1),
        TailRangePlan::Insert { start: 0, count: 1 },
        "empty-to-one inserts at the beginning of the range"
    );
    assert_eq!(
        plan_tail_range_change(1, 0),
        TailRangePlan::Remove {
            tail_first_indices: vec![0],
        },
        "one-to-empty removes the only materialised child"
    );
}

#[test]
fn expansion_seam_composes_for_slot_offset_with_tail_plan() {
    let slots = vec![
        DeclaredMemberSlot::Widget,
        for_loop_slot(2),
        DeclaredMemberSlot::Widget,
    ];
    let for_slot_base = materialized_offset_for_declared_slot(1, &slots);

    let insert_start = match plan_tail_range_change(2, 3) {
        TailRangePlan::Insert { start, count: 1 } => start,
        other => panic!("expected single tail insert, got {other:?}"),
    };

    assert_eq!(
        for_slot_base + insert_start,
        3,
        "absolute insertion index composes declared-slot base offset with for-local tail plan"
    );
}

#[test]
fn header_is_stripped_with_leading_blank_lines_and_trailing_space() {
    let rest = check_and_strip_header("\n  ;wasamo-ir v0  \ncomponent A inherits Window {}").unwrap();
    assert_eq!(rest, "component A inherits Window {}");
    assert_eq!(check_and_strip_header(";wasamo-ir v0").unwrap(), "");
}

#[test]
fn missing_header_is_invalid_header_naming_the_found_line() {
    let err = check_and_strip_header("component A inherits Window {}").unwrap_err();
    assert_eq!(
        err,
        IrLoadError::InvalidHeader(
            "expected `;wasamo-ir v0`, got `component A inherits Window {}`".into()
        )
    );
    assert!(err.is_malformed());
    let err = check_and_strip_header(";wasamo-ir v1\n").unwrap_err();
    assert!(matches!(err, IrLoadError::InvalidHeader(ref m) if m.ends_with("got `;wasamo-ir v1`")));
}

#[test]
fn build_errors_are_not_malformed_and_messages_carry_the_variant_prefix() {
    assert!(!IrLoadError::Build("x".into()).is_malformed());
    assert!(IrLoadError::Parse("x".into()).is_malformed());
    assert!(IrLoadError::UnknownWidget("x".into()).is_malformed());
    assert!(IrLoadError::Validate("x".into()).is_malformed());
    assert_eq!(IrLoadError::Parse("bad".into()).message(), "IR parse error: bad");
    assert_eq!(IrLoadError::Build("b".into()).message(), "IR build error: b");
    assert_eq!(
        IrLoadError::InvalidHeader("h".into()).message(),
        "invalid IR header: h"
    );
}

#[test]
fn grid_rectangles_overlap_only_when_both_axes_intersect() {
    let a = GridCellRect { row: 0, column: 0, row_span: 2, column_span: 2 };
    let b = GridCellRect { row: 1, column: 1, row_span: 1, column_span: 1 };
    let c = GridCellRect { row: 2, column: 0, row_span: 1, column_span: 1 };
    let d = GridCellRect { row: 0, column: 2, row_span: 3, column_span: 1 };
    assert!(grid_rects_overlap(&a, &b));
    assert!(grid_rects_overlap(&b, &a));
    assert!(!grid_rects_overlap(&a, &c), "abutting rows do not overlap");
    assert!(!grid_rects_overlap(&a, &d), "abutting columns do not overlap");
}

#[test]
fn placement_props_are_the_two_alignments() {
    assert!(is_child_placement_prop("h-align"));
    assert!(is_child_placement_prop("v-align"));
    assert!(!is_child_placement_prop("align"));
    assert!(!is_child_placement_prop("h-align "));
}

#[test]
fn legacy_placement_error_is_a_validation_error() {
    assert_eq!(
        legacy_placement_ir_form("cell"),
        IrLoadError::Validate("legacy-placement-ir-form: cell".into())
    );
}
