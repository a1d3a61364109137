//! IR loading: the error type, the header check, and the arithmetic that
//! places the materialised children of declared members.
use crate::text::{chars_of, is_white_space, is_white_space_char, str_eq, string_of};
use vstd::prelude::*;

verus! {

broadcast use vstd::string::group_string_axioms;

/// Why IR text could not be loaded.
#[derive(Debug, Clone, PartialEq)]
pub enum IrLoadError {
    InvalidHeader(String),
    Parse(String),
    UnknownWidget(String),
    Validate(String),
    Build(String),
}

/// The message each error renders to.
pub open spec fn ir_load_error_message(e: IrLoadError) -> Seq<char> {
    match e {
        IrLoadError::InvalidHeader(m) => "invalid IR header: "@ + m@,
        IrLoadError::Parse(m) => "IR parse error: "@ + m@,
        IrLoadError::UnknownWidget(m) => "unknown widget type: "@ + m@,
        IrLoadError::Validate(m) => "IR validation error: "@ + m@,
        IrLoadError::Build(m) => "IR build error: "@ + m@,
    }
}

impl IrLoadError {
    /// Whether this is a "malformed IR" failure: every variant but `Build`.
    pub fn is_malformed(&self) -> (b: bool)
        ensures
            b == !(self is Build),
    {
        match self {
            IrLoadError::InvalidHeader(_) | IrLoadError::Parse(_) | IrLoadError::UnknownWidget(_)
            | IrLoadError::Validate(_) => true,
            IrLoadError::Build(_) => false,
        }
    }

    /// The human-readable rendering of this error.
    pub fn message(&self) -> (s: String)
        ensures
            s@ == ir_load_error_message(*self),
    {
        proof {
            reveal_strlit("invalid IR header: ");
            reveal_strlit("IR parse error: ");
            reveal_strlit("unknown widget type: ");
            reveal_strlit("IR validation error: ");
            reveal_strlit("IR build error: ");
        }
        let (prefix, m) = match self {
            IrLoadError::InvalidHeader(m) => ("invalid IR header: ", m),
            IrLoadError::Parse(m) => ("IR parse error: ", m),
            IrLoadError::UnknownWidget(m) => ("unknown widget type: ", m),
            IrLoadError::Validate(m) => ("IR validation error: ", m),
            IrLoadError::Build(m) => ("IR build error: ", m),
        };
        let mut s = String::from_str(prefix);
        s.append(m.as_str());
        s
    }
}

/// The first line every IR text carries.
pub open spec fn header_magic() -> Seq<char> {
    ";wasamo-ir v0"@
}

/// The index of the first character at or after `i` that is not white space.
pub open spec fn skip_white(s: Seq<char>, i: int) -> int
    decreases s.len() - i,
{
    if 0 <= i < s.len() && is_white_space(s[i]) {
        skip_white(s, i + 1)
    } else {
        i
    }
}

/// The index of the first `c` at or after `i`, or the length when none.
pub open spec fn find_from(s: Seq<char>, c: char, i: int) -> int
    decreases s.len() - i,
{
    if i >= s.len() {
        s.len() as int
    } else if s[i] == c {
        i
    } else {
        find_from(s, c, i + 1)
    }
}

/// `end` moved back over trailing white space, not below `start`.
pub open spec fn trim_back(s: Seq<char>, start: int, end: int) -> int
    decreases end - start,
{
    if end > start && is_white_space(s[end - 1]) {
        trim_back(s, start, end - 1)
    } else {
        end
    }
}

/// Where the header line lies: (start of the trimmed text, end of the header
/// line before its newline, end of the line with trailing white space removed).
pub open spec fn header_bounds(s: Seq<char>) -> (int, int, int) {
    let start = skip_white(s, 0);
    let line_end = find_from(s, '\n', start);
    (start, line_end, trim_back(s, start, line_end))
}

/// The text after the header line, when the first non-blank line (trailing
/// white space ignored) is the header; `None` otherwise.
pub open spec fn strip_header_spec(s: Seq<char>) -> Option<Seq<char>> {
    let (start, line_end, trimmed) = header_bounds(s);
    if s.subrange(start, trimmed) != header_magic() {
        None
    } else if line_end < s.len() {
        Some(s.subrange(line_end + 1, s.len() as int))
    } else {
        Some(Seq::empty())
    }
}

proof fn lemma_skip_white_bounds(s: Seq<char>, i: int)
    requires
        0 <= i <= s.len(),
    ensures
        i <= skip_white(s, i) <= s.len(),
    decreases s.len() - i,
{
    if 0 <= i < s.len() && is_white_space(s[i]) {
        lemma_skip_white_bounds(s, i + 1);
    }
}

proof fn lemma_find_from_bounds(s: Seq<char>, c: char, i: int)
    requires
        0 <= i <= s.len(),
    ensures
        i <= find_from(s, c, i) <= s.len(),
    decreases s.len() - i,
{
    if i < s.len() && s[i] != c {
        lemma_find_from_bounds(s, c, i + 1);
    }
}

proof fn lemma_trim_back_bounds(s: Seq<char>, start: int, end: int)
    requires
        start <= end,
    ensures
        start <= trim_back(s, start, end) <= end,
    decreases end - start,
{
    if end > start && is_white_space(s[end - 1]) {
        lemma_trim_back_bounds(s, start, end - 1);
    }
}

/// Check the header line and return the text after it. A text whose first
/// non-blank line is not the header is `InvalidHeader`, with a message naming
/// the expected and the found line.
pub fn check_and_strip_header(text: &str) -> (r: Result<String, IrLoadError>)
    ensures
        match strip_header_spec(text@) {
            Some(rest) => r matches Ok(s) && s@ == rest,
            None => r matches Err(IrLoadError::InvalidHeader(m)) && m@ == "expected `"@ + header_magic() + "`, got `"@
                + text@.subrange(header_bounds(text@).0, header_bounds(text@).2) + "`"@,
        },
{
    proof {
        reveal_strlit(";wasamo-ir v0");
        reveal_strlit("expected `");
        reveal_strlit("`, got `");
        reveal_strlit("`");
    }
    let cs = chars_of(text);
    let ghost s = cs@;
    let mut start: usize = 0;
    while start < cs.len() && is_white_space_char(cs[start])
        invariant
            0 <= start <= cs@.len(),
            skip_white(s, start as int) == skip_white(s, 0),
            s == cs@,
        decreases cs@.len() - start,
    {
        start += 1;
    }
    let mut line_end: usize = start;
    while line_end < cs.len() && cs[line_end] != '\n'
        invariant
            start <= line_end <= cs@.len(),
            find_from(s, '\n', line_end as int) == find_from(s, '\n', start as int),
            s == cs@,
        decreases cs@.len() - line_end,
    {
        line_end += 1;
    }
    let mut trimmed: usize = line_end;
    while trimmed > start && is_white_space_char(cs[trimmed - 1])
        invariant
            start <= trimmed <= line_end <= cs@.len(),
            trim_back(s, start as int, trimmed as int) == trim_back(s, start as int, line_end as int),
            s == cs@,
        decreases trimmed - start,
    {
        trimmed -= 1;
    }
    let line = string_of(&cs, start, trimmed);
    if !str_eq(line.as_str(), ";wasamo-ir v0") {
        let mut m = String::from_str("expected `");
        m.append(";wasamo-ir v0");
        m.append("`, got `");
        m.append(line.as_str());
        m.append("`");
        return Err(IrLoadError::InvalidHeader(m));
    }
    if line_end < cs.len() {
        Ok(string_of(&cs, line_end + 1, cs.len()))
    } else {
        Ok(String::new())
    }
}

/// What a declared member of a container currently materialises: a widget
/// is always one child, a conditional is one child while its branch is live,
/// a `for` member is as many children as its live items.
#[derive(Clone, Copy, Debug, PartialEq, Eq, Structural)]
pub enum DeclaredMemberSlot {
    Widget,
    Conditional(bool),
    ForLoop(usize),
}

/// The number of materialised children a declared member contributes.
pub open spec fn slot_cardinality(slot: DeclaredMemberSlot) -> nat {
    match slot {
        DeclaredMemberSlot::Widget => 1,
        DeclaredMemberSlot::Conditional(live) => if live { 1 } else { 0 },
        DeclaredMemberSlot::ForLoop(n) => n as nat,
    }
}

/// The materialised children of the first `k` declared members.
pub open spec fn cardinality_sum(slots: Seq<DeclaredMemberSlot>, k: int) -> nat
    decreases k,
{
    if k <= 0 || slots.len() == 0 {
        0
    } else if k > slots.len() {
        cardinality_sum(slots, slots.len() as int)
    } else {
        cardinality_sum(slots, k - 1) + slot_cardinality(slots[k - 1])
    }
}

proof fn lemma_cardinality_sum_monotone(slots: Seq<DeclaredMemberSlot>, j: int, k: int)
    requires
        0 <= j <= k <= slots.len(),
    ensures
        cardinality_sum(slots, j) <= cardinality_sum(slots, k),
    decreases k - j,
{
    if j < k {
        lemma_cardinality_sum_monotone(slots, j, k - 1);
    }
}

/// The number of materialised children one declared member contributes.
pub fn declared_slot_live_cardinality(slot: &DeclaredMemberSlot) -> (n: usize)
    ensures
        n == slot_cardinality(*slot),
{
    match slot {
        DeclaredMemberSlot::Widget => 1,
        DeclaredMemberSlot::Conditional(live) => if *live {
            1
        } else {
            0
        },
        DeclaredMemberSlot::ForLoop(n) => *n,
    }
}

/// The materialised index at which declared member `declared_member_index`
/// starts: the children contributed by the members before it.
pub fn materialized_offset_for_declared_slot(
    declared_member_index: usize,
    declared_slots: &[DeclaredMemberSlot],
) -> (n: usize)
    requires
        cardinality_sum(declared_slots@, declared_slots@.len() as int) <= usize::MAX,
    ensures
        n == cardinality_sum(declared_slots@, declared_member_index as int),
{
    let k = if declared_member_index < declared_slots.len() {
        declared_member_index
    } else {
        declared_slots.len()
    };
    let mut total: usize = 0;
    let mut i: usize = 0;
    while i < k
        invariant
            0 <= i <= k <= declared_slots@.len(),
            total == cardinality_sum(declared_slots@, i as int),
            cardinality_sum(declared_slots@, declared_slots@.len() as int) <= usize::MAX,
        decreases k - i,
    {
        proof {
            lemma_cardinality_sum_monotone(declared_slots@, i as int + 1, declared_slots@.len() as int);
        }
        total = total + declared_slot_live_cardinality(&declared_slots[i]);
        i += 1;
    }
    total
}

/// The total number of children the declared members materialise.
pub fn total_materialized_children(declared_slots: &[DeclaredMemberSlot]) -> (n: usize)
    requires
        cardinality_sum(declared_slots@, declared_slots@.len() as int) <= usize::MAX,
    ensures
        n == cardinality_sum(declared_slots@, declared_slots@.len() as int),
{
    materialized_offset_for_declared_slot(declared_slots.len(), declared_slots)
}

/// The structural edit that takes a `for` member's tail from `old_len` to
/// `new_len` children.
#[derive(Debug, Clone, PartialEq, Eq)]
pub enum TailRangePlan {
    Insert { start: usize, count: usize },
    Remove { tail_first_indices: Vec<usize> },
    NoOp,
}

/// The plan that takes a tail of `old_len` children to `new_len`: growth
/// inserts the new suffix at `old_len`; shrinking removes the old tail, last
/// index first; an unchanged length does nothing.
pub open spec fn is_tail_plan(old_len: usize, new_len: usize, p: TailRangePlan) -> bool {
    &&& new_len > old_len ==> p == (TailRangePlan::Insert { start: old_len, count: (new_len - old_len) as usize })
    &&& new_len < old_len ==> (p matches TailRangePlan::Remove { tail_first_indices } && tail_first_indices@.len()
        == old_len - new_len && forall|k: int|
        0 <= k < tail_first_indices@.len() ==> #[trigger] tail_first_indices@[k] == old_len - 1 - k)
    &&& new_len == old_len ==> p is NoOp
}

/// The number of children after applying plan `p` to `old_len` children.
pub open spec fn len_after_plan(old_len: int, p: TailRangePlan) -> int {
    match p {
        TailRangePlan::Insert { count, .. } => old_len + count,
        TailRangePlan::Remove { tail_first_indices } => old_len - tail_first_indices@.len(),
        TailRangePlan::NoOp => old_len,
    }
}

/// Growth inserts the new suffix; shrinking removes the old tail, last
/// index first; an unchanged length does nothing.
pub fn plan_tail_range_change(old_len: usize, new_len: usize) -> (p: TailRangePlan)
    ensures
        is_tail_plan(old_len, new_len, p),
{
    if new_len > old_len {
        TailRangePlan::Insert { start: old_len, count: new_len - old_len }
    } else if new_len < old_len {
        let mut indices: Vec<usize> = Vec::new();
        let mut i = old_len;
        while i > new_len
            invariant
                new_len <= i <= old_len,
                indices@.len() == old_len - i,
                forall|k: int| 0 <= k < indices@.len() ==> #[trigger] indices@[k] == old_len - 1 - k,
            decreases i,
        {
            i -= 1;
            indices.push(i);
        }
        TailRangePlan::Remove { tail_first_indices: indices }
    } else {
        TailRangePlan::NoOp
    }
}

/// A resolved grid cell rectangle in track coordinates.
#[derive(Clone, Copy, Debug, PartialEq, Eq, Structural)]
pub struct GridCellRect {
    pub row: i64,
    pub column: i64,
    pub row_span: i64,
    pub column_span: i64,
}

/// Two half-open ranges `[s1, s1 + len1)` and `[s2, s2 + len2)` intersect.
pub open spec fn ranges_overlap_spec(s1: int, len1: int, s2: int, len2: int) -> bool {
    s1 < s2 + len2 && s2 < s1 + len1
}

/// Two cell rectangles overlap when both their row and column ranges do.
pub open spec fn grid_rects_overlap_spec(a: GridCellRect, b: GridCellRect) -> bool {
    ranges_overlap_spec(a.row as int, a.row_span as int, b.row as int, b.row_span as int) && ranges_overlap_spec(
        a.column as int,
        a.column_span as int,
        b.column as int,
        b.column_span as int,
    )
}

/// Whether two cell rectangles overlap.
pub fn grid_rects_overlap(a: &GridCellRect, b: &GridCellRect) -> (r: bool)
    requires
        i64::MIN <= a.row + a.row_span <= i64::MAX,
        i64::MIN <= b.row + b.row_span <= i64::MAX,
        i64::MIN <= a.column + a.column_span <= i64::MAX,
        i64::MIN <= b.column + b.column_span <= i64::MAX,
    ensures
        r == grid_rects_overlap_spec(*a, *b),
{
    (a.row < b.row + b.row_span && b.row < a.row + a.row_span) && (a.column < b.column + b.column_span && b.column
        < a.column + a.column_span)
}

/// Whether a property name is a child-placement property (`h-align`,
/// `v-align`).
pub fn is_child_placement_prop(name: &str) -> (b: bool)
    ensures
        b == (name@ == "h-align"@ || name@ == "v-align"@),
{
    str_eq(name, "h-align") || str_eq(name, "v-align")
}

/// The validation error for IR in the retired placement form.
pub fn legacy_placement_ir_form(detail: &str) -> (e: IrLoadError)
    ensures
        e matches IrLoadError::Validate(m) && m@ == "legacy-placement-ir-form: "@ + detail@,
{
    proof {
        reveal_strlit("legacy-placement-ir-form: ");
    }
    let mut m = String::from_str("legacy-placement-ir-form: ");
    m.append(detail);
    IrLoadError::Validate(m)
}

/// What loading IR text gives: `None` for a bad header (`InvalidHeader`),
/// `Some(None)` for a lexical or grammatical failure (`Parse`), and
/// otherwise the parsed component with its collection expressions
/// annotated, which must then meet every validation rule.
pub open spec fn loaded_component(text: Seq<char>) -> Option<Option<crate::ir_view::ComponentV>> {
    match crate::ir_parser::ir_text_syntax(text) {
        None => None,
        Some(None) => Some(None),
        Some(Some(c)) => Some(Some(crate::ir_rules::annotate_component(c))),
    }
}

/// Parse IR text into a component: the header is checked, the text split
/// into tokens and parsed, collection expressions get the element type of
/// the state they name, and the result is validated. A bad header is
/// `InvalidHeader`, a lexical or grammatical failure `Parse`, a component
/// that breaks a rule `Validate`.
pub fn parse_ir(text: &str) -> (r: Result<crate::ir::IrComponent, IrLoadError>)
    ensures
        match loaded_component(text@) {
            None => r matches Err(e) && e is InvalidHeader,
            Some(None) => r matches Err(e) && e is Parse,
            Some(Some(c)) => if crate::ir_rules::component_valid(c) {
                r matches Ok(x) && crate::ir_view::component_view(x) == c
            } else {
                r matches Err(e) && e is Validate
            },
        },
        crate::ir_parser::lex_failure(text@) matches Some(m) ==> (r matches Err(IrLoadError::Parse(t)) && t@ == m),
        loaded_component(text@) matches Some(Some(c)) ==> (crate::ir_validate::states_failure(c.states, 0) matches Some(
            m,
        ) ==> (r matches Err(IrLoadError::Validate(t)) && t@ == m)),
        loaded_component(text@) matches Some(Some(c)) ==> (crate::ir_validate::states_failure(c.states, 0) is None
            ==> (crate::ir_validate::host_failure(c) matches Some(m) ==> (r matches Err(IrLoadError::Validate(t)) && t@
            == m))),
{
    let comp = crate::ir_parser::parse_ir_syntax(text)?;
    let comp = crate::ir_validate::annotate_collection_expr_types(comp);
    crate::ir_validate::validate(&comp)?;
    Ok(comp)
}

/// The window title a component asks for: its first `title` host
/// attribute when that is a non-empty string, `default_title` otherwise.
pub open spec fn window_title(c: crate::ir_view::ComponentV, default_title: Seq<char>) -> Seq<char> {
    let i = crate::ir_validate::first_named(c.host_props, "title"@, 0);
    if i < c.host_props.len() {
        match c.host_props[i].value {
            crate::ir_view::LiteralV::Str(t) => if t.len() > 0 {
                t
            } else {
                default_title
            },
            _ => default_title,
        }
    } else {
        default_title
    }
}

/// The window title a component asks for, or `default_title`.
pub fn resolve_static_window_title<'a>(comp: &'a crate::ir::IrComponent, default_title: &'a str) -> (t: &'a str)
    ensures
        t@ == window_title(crate::ir_view::component_view(*comp), default_title@),
{
    let ghost cv = crate::ir_view::component_view(*comp);
    let mut i: usize = 0;
    while i < comp.host_props.len()
        invariant
            i <= comp.host_props@.len(),
            cv == crate::ir_view::component_view(*comp),
            crate::ir_validate::first_named(cv.host_props, "title"@, i as int) == crate::ir_validate::first_named(
                cv.host_props,
                "title"@,
                0,
            ),
        decreases comp.host_props@.len() - i,
    {
        assert(cv.host_props[i as int] == crate::ir_view::prop_view(comp.host_props@[i as int]));
        if str_eq(comp.host_props[i].name.as_str(), "title") {
            return match &comp.host_props[i].value {
                crate::ir::IrLiteral::Str(title) => if !title.as_str().is_empty() {
                    title.as_str()
                } else {
                    default_title
                },
                _ => default_title,
            };
        }
        i += 1;
    }
    default_title
}

} // verus!
