//! Placement of a child inside a ZStack or Grid parent, as the layout pass
//! consumes it, and its derivation from the placement data of the IR.
use crate::ir::{IrAlignment, IrChildSlot, IrSlotData};
use vstd::prelude::*;

verus! {

/// Alignment of a child inside its cell, along one axis.
#[derive(Clone, Copy, PartialEq, Eq, Debug, Structural)]
pub enum Alignment {
    Leading,
    Center,
    Trailing,
    Stretch,
}

/// Where a ZStack child sits inside the stack.
#[derive(Clone, Copy, PartialEq, Eq, Debug, Structural)]
pub struct ZStackPlacement {
    pub h_align: Alignment,
    pub v_align: Alignment,
}

/// The cells a Grid child spans, and its alignment inside them.
#[derive(Clone, Copy, PartialEq, Eq, Debug, Structural)]
pub struct CellPlacement {
    pub row: u32,
    pub column: u32,
    pub row_span: u32,
    pub column_span: u32,
    pub h_align: Alignment,
    pub v_align: Alignment,
}

/// Per-child data a placing parent reads.
#[derive(Clone, Copy, PartialEq, Eq, Debug, Structural)]
pub enum SlotData {
    ZStack(ZStackPlacement),
    Grid(CellPlacement),
}

/// The placement of a ZStack child that states none: centred on both axes.
pub open spec fn centered_spec() -> ZStackPlacement {
    ZStackPlacement { h_align: Alignment::Center, v_align: Alignment::Center }
}

/// The placement of a Grid child that states none: the origin cell, one by
/// one, stretched on both axes.
pub open spec fn default_grid_spec() -> CellPlacement {
    CellPlacement {
        row: 0,
        column: 0,
        row_span: 1,
        column_span: 1,
        h_align: Alignment::Stretch,
        v_align: Alignment::Stretch,
    }
}

impl ZStackPlacement {
    /// Centred on both axes.
    pub fn centered() -> (p: ZStackPlacement)
        ensures
            p == centered_spec(),
    {
        ZStackPlacement { h_align: Alignment::Center, v_align: Alignment::Center }
    }
}

impl CellPlacement {
    /// The origin cell, spanning one row and one column, stretched.
    pub fn default_grid() -> (p: CellPlacement)
        ensures
            p == default_grid_spec(),
    {
        CellPlacement {
            row: 0,
            column: 0,
            row_span: 1,
            column_span: 1,
            h_align: Alignment::Stretch,
            v_align: Alignment::Stretch,
        }
    }
}

/// IR alignment keywords in layout terms: `start` leads, `end` trails.
pub open spec fn layout_alignment(a: IrAlignment) -> Alignment {
    match a {
        IrAlignment::Start => Alignment::Leading,
        IrAlignment::Center => Alignment::Center,
        IrAlignment::End => Alignment::Trailing,
        IrAlignment::Stretch => Alignment::Stretch,
    }
}

/// The ZStack placement an IR slot carries; centred when it carries none.
pub open spec fn zstack_placement_of(d: Option<IrSlotData>) -> ZStackPlacement {
    match d {
        Some(IrSlotData::ZStack { h_align, v_align }) => ZStackPlacement {
            h_align: layout_alignment(h_align),
            v_align: layout_alignment(v_align),
        },
        _ => centered_spec(),
    }
}

/// The Grid placement an IR slot carries; the default cell when it carries
/// none.
pub open spec fn grid_placement_of(d: Option<IrSlotData>) -> CellPlacement {
    match d {
        Some(IrSlotData::Grid { row, column, row_span, column_span, h_align, v_align }) => CellPlacement {
            row,
            column,
            row_span,
            column_span,
            h_align: layout_alignment(h_align),
            v_align: layout_alignment(v_align),
        },
        _ => default_grid_spec(),
    }
}

/// Converts an IR alignment keyword to a layout alignment.
pub fn to_layout_alignment(a: IrAlignment) -> (r: Alignment)
    ensures
        r == layout_alignment(a),
{
    match a {
        IrAlignment::Start => Alignment::Leading,
        IrAlignment::Center => Alignment::Center,
        IrAlignment::End => Alignment::Trailing,
        IrAlignment::Stretch => Alignment::Stretch,
    }
}

/// The ZStack placement of a child slot.
pub fn zstack_payload_from_ir_slot(slot: &IrChildSlot) -> (p: ZStackPlacement)
    ensures
        p == zstack_placement_of(slot.slot_data),
{
    match slot.slot_data {
        Some(IrSlotData::ZStack { h_align, v_align }) => ZStackPlacement {
            h_align: to_layout_alignment(h_align),
            v_align: to_layout_alignment(v_align),
        },
        _ => ZStackPlacement::centered(),
    }
}

/// The Grid placement of a child slot.
pub fn grid_placement_from_slot(slot: &IrChildSlot) -> (p: CellPlacement)
    ensures
        p == grid_placement_of(slot.slot_data),
{
    match slot.slot_data {
        Some(IrSlotData::Grid { row, column, row_span, column_span, h_align, v_align }) => CellPlacement {
            row,
            column,
            row_span,
            column_span,
            h_align: to_layout_alignment(h_align),
            v_align: to_layout_alignment(v_align),
        },
        _ => CellPlacement::default_grid(),
    }
}

/// The slot data a child hands its parent: ZStack placement under a ZStack,
/// Grid placement under a Grid, and nothing under any other parent. A ZStack
/// parent takes precedence when both flags are set.
pub fn slot_data_for_parent_kind(parent_is_zstack: bool, parent_is_grid: bool, slot: &IrChildSlot) -> (r: Option<
    SlotData,
>)
    ensures
        r == (if parent_is_zstack {
            Some(SlotData::ZStack(zstack_placement_of(slot.slot_data)))
        } else if parent_is_grid {
            Some(SlotData::Grid(grid_placement_of(slot.slot_data)))
        } else {
            None
        }),
{
    if parent_is_zstack {
        Some(SlotData::ZStack(zstack_payload_from_ir_slot(slot)))
    } else if parent_is_grid {
        Some(SlotData::Grid(grid_placement_from_slot(slot)))
    } else {
        None
    }
}

} // verus!
