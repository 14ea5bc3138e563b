//! Layout management for the UI

use ratatui::layout::{
    Constraint as TuiConstraint, Direction as TuiDirection, Layout as TuiLayout, Rect as TuiRect,
    Spacing,
};
use vstd::prelude::*;

verus! {

/// A rectangle of terminal cells
#[derive(Debug, Clone, Copy, PartialEq, Eq, Structural, Default)]
pub struct Rect {
    /// Column of the top left corner
    pub x: u16,
    /// Row of the top left corner
    pub y: u16,
    /// Width in cells
    pub width: u16,
    /// Height in cells
    pub height: u16,
}

impl Rect {
    /// A rectangle at (`x`, `y`), shrunk where needed so that its right and
    /// bottom edges stay within the range of `u16`.
    pub fn new(x: u16, y: u16, width: u16, height: u16) -> (r: Rect)
        ensures
            r.x == x,
            r.y == y,
            r.width == if x + width > u16::MAX { u16::MAX - x } else { width as int },
            r.height == if y + height > u16::MAX { u16::MAX - y } else { height as int },
    {
        let width = x.saturating_add(width) - x;
        let height = y.saturating_add(height) - y;
        Rect { x, y, width, height }
    }
}

impl Rect {
    /// One past the rightmost column, kept within `u16` as ratatui's `right` is.
    pub open spec fn right(self) -> int {
        if self.x + self.width > u16::MAX { u16::MAX as int } else { self.x + self.width }
    }

    /// One past the lowest row, kept within `u16` as ratatui's `bottom` is.
    pub open spec fn bottom(self) -> int {
        if self.y + self.height > u16::MAX { u16::MAX as int } else { self.y + self.height }
    }

    /// `inner` lies within this rectangle, both edges taken as ratatui
    /// takes them (kept within `u16`).
    pub open spec fn contains(self, inner: Rect) -> bool {
        &&& self.x <= inner.x && inner.right() <= self.right()
        &&& self.y <= inner.y && inner.bottom() <= self.bottom()
    }
}

/// Direction in which an area is split
#[derive(Debug, Clone, Copy, PartialEq, Eq, Structural)]
pub enum Direction {
    /// Parts side by side, left to right
    Horizontal,
    /// Parts stacked, top to bottom
    Vertical,
}

/// Size requested for one part of a split
#[derive(Debug, Clone, Copy, PartialEq, Eq, Structural)]
pub enum Constraint {
    /// Exactly this many cells
    Length(u16),
    /// At least this many cells
    Min(u16),
    /// This percentage of the area
    Percentage(u16),
}

/// `parts` is one of the results that ratatui's constraint solver may give
/// when asked to split `area` in `direction` by `constraints`, neighbouring
/// parts overlapping by `overlap` cells. This is a relation, not a function:
/// the solver breaks ties among equally good solutions by the order in which
/// it walks randomly seeded hash maps, so two calls with the same arguments
/// may give different results, both of which satisfy it.
pub uninterp spec fn split_outcome(
    direction: Direction,
    overlap: u16,
    constraints: Seq<Constraint>,
    area: Rect,
    parts: Seq<Rect>,
) -> bool;

/// Each part keeps the area's extent across the direction of the split.
pub open spec fn keeps_cross_extent(direction: Direction, area: Rect, parts: Seq<Rect>) -> bool {
    forall|i: int| #![trigger parts[i]] 0 <= i < parts.len() ==> match direction {
        Direction::Vertical => parts[i].x == area.x && parts[i].width == area.width,
        Direction::Horizontal => parts[i].y == area.y && parts[i].height == area.height,
    }
}

/// Each part lies inside the area along the direction of the split.
pub open spec fn lies_along(direction: Direction, area: Rect, parts: Seq<Rect>) -> bool {
    forall|i: int| #![trigger parts[i]] 0 <= i < parts.len() ==> match direction {
        Direction::Vertical => area.y <= parts[i].y && parts[i].y + parts[i].height <= area.bottom(),
        Direction::Horizontal => area.x <= parts[i].x && parts[i].x + parts[i].width <= area.right(),
    }
}

/// What holds of every result of the solver: it is an outcome of the
/// request, with one part per constraint, each keeping the area's extent
/// across the direction of the split and lying inside the area along it.
pub open spec fn is_split(direction: Direction, overlap: u16, constraints: Seq<Constraint>, area: Rect, parts: Seq<Rect>) -> bool {
    &&& split_outcome(direction, overlap, constraints, area, parts)
    &&& parts.len() == constraints.len()
    &&& keeps_cross_extent(direction, area, parts)
    &&& lies_along(direction, area, parts)
}

/// Splits `area` with ratatui's `Layout::split` (`Spacing::Overlap(overlap)`,
/// no margin, default flex). What it returns depends on how the solver breaks
/// ties, so only what holds of every result is claimed: the result is an
/// outcome of this request (`split_outcome`, left open), and, as the source's
/// construction of the rectangles shows, there is one part per constraint,
/// each keeps the area's extent across the split, and each lies inside the
/// area along it (the solver's required constraints keep every boundary
/// between the area's start and end, and a part's size is the saturating
/// difference of its rounded boundaries). ratatui negates the overlap as an
/// `i16`, which overflows above 32767; that input is excluded.
#[verifier::external_body]
fn split(direction: Direction, overlap: u16, constraints: &Vec<Constraint>, area: Rect) -> (parts: Vec<Rect>)
    requires
        overlap <= 32767,
    ensures
        split_outcome(direction, overlap, constraints@, area, parts@),
        parts@.len() == constraints@.len(),
        keeps_cross_extent(direction, area, parts@),
        lies_along(direction, area, parts@),
{
    let constraints = constraints.iter().map(|c| match *c {
        Constraint::Length(n) => TuiConstraint::Length(n),
        Constraint::Min(n) => TuiConstraint::Min(n),
        Constraint::Percentage(n) => TuiConstraint::Percentage(n),
    });
    let direction = match direction {
        Direction::Horizontal => TuiDirection::Horizontal,
        Direction::Vertical => TuiDirection::Vertical,
    };
    let area = TuiRect { x: area.x, y: area.y, width: area.width, height: area.height };
    let parts = TuiLayout::default().direction(direction).spacing(Spacing::Overlap(overlap))
        .constraints(constraints).split(area);
    parts.iter().map(|r| Rect { x: r.x, y: r.y, width: r.width, height: r.height }).collect()
}

/// Main layout manager
#[derive(Debug, Clone, Copy, PartialEq, Eq, Structural)]
pub struct Layout {
    /// Header height
    pub header_height: u16,
    /// Main panel height
    pub center_height: u16,
    /// Bottom panel height
    pub bottom_height: u16,
    /// Left panel width percentage
    pub left_width_percent: u16,
    /// Percentage of the top panel for the right side split (by default contains details and graph)
    pub side_vertical_split_percent: u16,
    /// If this value is true, the left panel will be on the right and the right panel will be on the left.
    pub invert_horizontal_split: bool,
    /// If this value is true, the top panel will be on the bottom and the bottom panel will be on the top.
    pub invert_side_vertical_split: bool,
    /// If this value is true, the insights panel will be below the header and above main
    pub put_insights_on_top: bool,
    /// If true, 2 borders will become 1. So for example, if without it a slice of the layout is content||content, with it it would be content|content
    pub collapse_borders: bool,
}

/// Computed layout areas
#[derive(Debug, Clone, Copy, PartialEq, Eq, Structural)]
pub struct LayoutAreas {
    /// Top header bar
    pub header: Rect,
    /// Left panel (process list)
    pub left_panel: Rect,
    /// Right top (detail view)
    pub detail_panel: Rect,
    /// Right bottom (graph)
    pub graph_panel: Rect,
    /// Bottom panel (insights)
    pub bottom: Rect,
}

impl Layout {
    /// The percentages are within 100, as the split of the panels needs.
    pub open spec fn valid(self) -> bool {
        self.left_width_percent <= 100 && self.side_vertical_split_percent <= 100
    }

    /// Cells by which neighbouring columns and panels overlap: one, so that
    /// they share a border, when borders are collapsed. The solver places
    /// overlapping parts from the start of the area, so when the percentages
    /// add up to 100 the last column (or row) of the split area stays free.
    pub open spec fn overlap(self) -> u16 {
        if self.collapse_borders { 1 } else { 0 }
    }

    /// Constraints of the split into header, main and insights rows.
    pub open spec fn vertical_constraints(self) -> Seq<Constraint> {
        if self.put_insights_on_top {
            seq![
                Constraint::Length(self.header_height),
                Constraint::Length(self.bottom_height),
                Constraint::Min(self.center_height),
            ]
        } else {
            seq![
                Constraint::Length(self.header_height),
                Constraint::Min(self.center_height),
                Constraint::Length(self.bottom_height),
            ]
        }
    }

    /// Constraints of the split of the main row into two columns.
    pub open spec fn horizontal_constraints(self) -> Seq<Constraint> {
        seq![
            Constraint::Percentage(self.left_width_percent),
            Constraint::Percentage((100 - self.left_width_percent) as u16),
        ]
    }

    /// Constraints of the split of the right column into two panels.
    pub open spec fn side_constraints(self) -> Seq<Constraint> {
        seq![
            Constraint::Percentage(self.side_vertical_split_percent),
            Constraint::Percentage((100 - self.side_vertical_split_percent) as u16),
        ]
    }

    /// Header, main and insights rows, given the rows of the vertical split.
    pub open spec fn rows_of(self, rows: Seq<Rect>) -> (Rect, Rect, Rect) {
        if self.put_insights_on_top {
            (rows[0], rows[2], rows[1])
        } else {
            (rows[0], rows[1], rows[2])
        }
    }

    /// Left and right panels, given the columns of the main row.
    pub open spec fn columns_of(self, columns: Seq<Rect>) -> (Rect, Rect) {
        if self.invert_horizontal_split {
            (columns[1], columns[0])
        } else {
            (columns[0], columns[1])
        }
    }

    /// Detail and graph panels, given the parts of the right panel.
    pub open spec fn side_of(self, parts: Seq<Rect>) -> (Rect, Rect) {
        if self.invert_side_vertical_split {
            (parts[1], parts[0])
        } else {
            (parts[0], parts[1])
        }
    }

    /// The areas built from the rows of the screen, the columns of the main
    /// row and the parts of the right column.
    pub open spec fn assembled(self, rows: Seq<Rect>, columns: Seq<Rect>, parts: Seq<Rect>) -> LayoutAreas {
        let (header, main, bottom) = self.rows_of(rows);
        let (left_panel, right_panel) = self.columns_of(columns);
        let (detail_panel, graph_panel) = self.side_of(parts);
        LayoutAreas { header, left_panel, detail_panel, graph_panel, bottom }
    }

    /// `rows`, `columns` and `parts` are results the solver may give for the
    /// three splits of the screen `area`: into header, main and insights
    /// rows; of the main row into two columns, sharing a border when borders
    /// are collapsed; and of the right column into the detail and graph
    /// panels, sharing a border likewise.
    pub open spec fn splits_of(self, area: Rect, rows: Seq<Rect>, columns: Seq<Rect>, parts: Seq<Rect>) -> bool {
        &&& is_split(Direction::Vertical, 0, self.vertical_constraints(), area, rows)
        &&& is_split(Direction::Horizontal, self.overlap(), self.horizontal_constraints(), self.rows_of(rows).1, columns)
        &&& is_split(Direction::Vertical, self.overlap(), self.side_constraints(), self.columns_of(columns).1, parts)
    }

    pub fn new() -> (r: Self)
        ensures
            r == (Layout {
                header_height: 1,
                center_height: 10,
                bottom_height: 4,
                left_width_percent: 40,
                side_vertical_split_percent: 60,
                invert_horizontal_split: false,
                invert_side_vertical_split: false,
                put_insights_on_top: false,
                collapse_borders: true,
            }),
    {
        Self {
            header_height: 1,
            center_height: 10,
            bottom_height: 4,
            left_width_percent: 40,
            side_vertical_split_percent: 60,

            invert_horizontal_split: false,
            invert_side_vertical_split: false,
            put_insights_on_top: false,

            collapse_borders: true,
        }
    }

    /// Header, main and insights rows, given the three rows into which the
    /// vertical split cut the screen.
    pub fn pick_rows(&self, rows: &[Rect]) -> (r: (Rect, Rect, Rect))
        requires
            rows@.len() == 3,
        ensures
            r == self.rows_of(rows@),
    {
        if self.put_insights_on_top {
            (rows[0], rows[2], rows[1])
        } else {
            (rows[0], rows[1], rows[2])
        }
    }

    /// Left and right panels, given the two columns of the main row.
    pub fn pick_columns(&self, columns: &[Rect]) -> (r: (Rect, Rect))
        requires
            columns@.len() == 2,
        ensures
            r == self.columns_of(columns@),
    {
        if self.invert_horizontal_split {
            (columns[1], columns[0])
        } else {
            (columns[0], columns[1])
        }
    }

    /// Detail and graph panels, given the two parts of the right panel.
    pub fn pick_side(&self, parts: &[Rect]) -> (r: (Rect, Rect))
        requires
            parts@.len() == 2,
        ensures
            r == self.side_of(parts@),
    {
        if self.invert_side_vertical_split {
            (parts[1], parts[0])
        } else {
            (parts[0], parts[1])
        }
    }

    /// Calculate all layout areas from the terminal size: they are assembled
    /// from results that the solver gave for the three splits of the screen,
    /// and all lie within it. With collapsed borders the right column and
    /// the graph panel end one cell short of the main row's right and lower
    /// edges, as the solver places overlapping parts from the start.
    pub fn calculate(&self, area: Rect) -> (r: LayoutAreas)
        requires
            self.valid(),
        ensures
            exists|rows: Seq<Rect>, columns: Seq<Rect>, parts: Seq<Rect>|
                self.splits_of(area, rows, columns, parts) && r == #[trigger] self.assembled(rows, columns, parts),
            r.header.x == area.x && r.header.width == area.width,
            r.bottom.x == area.x && r.bottom.width == area.width,
            r.detail_panel.x == r.graph_panel.x && r.detail_panel.width == r.graph_panel.width,
            area.contains(r.header) && area.contains(r.left_panel) && area.contains(r.detail_panel),
            area.contains(r.graph_panel) && area.contains(r.bottom),
    {
        let overlap: u16 = if self.collapse_borders { 1 } else { 0 };
        // Split into header, main, and bottom (insights)
        let vertical_constraints = if self.put_insights_on_top {
            vec![
                Constraint::Length(self.header_height),
                Constraint::Length(self.bottom_height),
                Constraint::Min(self.center_height),
            ]
        } else {
            vec![
                Constraint::Length(self.header_height),
                Constraint::Min(self.center_height),
                Constraint::Length(self.bottom_height),
            ]
        };
        assert(vertical_constraints@ =~= self.vertical_constraints());
        let vertical = split(Direction::Vertical, 0, &vertical_constraints, area);
        let (header, main, bottom) = self.pick_rows(vertical.as_slice());

        // Split main into left and right panels
        let right_width_percent = 100 - self.left_width_percent;
        let horizontal_constraints = vec![
            Constraint::Percentage(self.left_width_percent),
            Constraint::Percentage(right_width_percent),
        ];
        assert(horizontal_constraints@ =~= self.horizontal_constraints());
        let horizontal = split(Direction::Horizontal, overlap, &horizontal_constraints, main);
        let (left_panel, right_panel) = self.pick_columns(horizontal.as_slice());

        // Split right panel into detail and graph
        let lower_split_percent = 100 - self.side_vertical_split_percent;
        let side_constraints = vec![
            Constraint::Percentage(self.side_vertical_split_percent),
            Constraint::Percentage(lower_split_percent),
        ];
        assert(side_constraints@ =~= self.side_constraints());
        let right_split = split(Direction::Vertical, overlap, &side_constraints, right_panel);
        let (detail_panel, graph_panel) = self.pick_side(right_split.as_slice());
        assert(self.splits_of(area, vertical@, horizontal@, right_split@));
        proof {
            lemma_layout_geometry(*self, area, vertical@, horizontal@, right_split@);
        }
        let r = LayoutAreas { header, left_panel, detail_panel, graph_panel, bottom };
        assert(r == self.assembled(vertical@, horizontal@, right_split@));
        r
    }
}

/// Inverting the side split swaps the detail and graph panels and leaves
/// the other areas where they were: the same solver results lay out both
/// layouts, and only the two panels trade places.
pub proof fn lemma_invert_side_swaps_panels(
    layout: Layout,
    area: Rect,
    rows: Seq<Rect>,
    columns: Seq<Rect>,
    parts: Seq<Rect>,
)
    requires
        layout.splits_of(area, rows, columns, parts),
    ensures
        ({
            let flipped = Layout { invert_side_vertical_split: !layout.invert_side_vertical_split, ..layout };
            let a = layout.assembled(rows, columns, parts);
            let b = flipped.assembled(rows, columns, parts);
            &&& flipped.splits_of(area, rows, columns, parts)
            &&& b.detail_panel == a.graph_panel
            &&& b.graph_panel == a.detail_panel
            &&& b.header == a.header
            &&& b.left_panel == a.left_panel
            &&& b.bottom == a.bottom
        }),
{
}

/// Inverting the horizontal split swaps the two columns: laid out on the
/// same rows and columns, the header and insights rows stay, the left panel
/// takes the place and width of the column that held the detail and graph
/// panels, and those panels take the place and width of the old left panel;
/// all of them keep the height of the main row.
pub proof fn lemma_invert_horizontal_swaps_columns(
    layout: Layout,
    area: Rect,
    rows: Seq<Rect>,
    columns: Seq<Rect>,
    parts: Seq<Rect>,
    flipped_parts: Seq<Rect>,
)
    requires
        layout.splits_of(area, rows, columns, parts),
        (Layout { invert_horizontal_split: !layout.invert_horizontal_split, ..layout }).splits_of(
            area,
            rows,
            columns,
            flipped_parts,
        ),
    ensures
        ({
            let flipped = Layout { invert_horizontal_split: !layout.invert_horizontal_split, ..layout };
            let a = layout.assembled(rows, columns, parts);
            let b = flipped.assembled(rows, columns, flipped_parts);
            &&& b.header == a.header
            &&& b.bottom == a.bottom
            &&& b.left_panel.x == a.detail_panel.x && b.left_panel.width == a.detail_panel.width
            &&& b.detail_panel.x == a.left_panel.x && b.detail_panel.width == a.left_panel.width
            &&& b.graph_panel.x == a.left_panel.x && b.graph_panel.width == a.left_panel.width
            &&& b.left_panel.y == a.left_panel.y && b.left_panel.height == a.left_panel.height
        }),
{
    let (column_0, column_1) = (columns[0], columns[1]);
    let (part_0, part_1) = (parts[0], parts[1]);
    let (flipped_0, flipped_1) = (flipped_parts[0], flipped_parts[1]);
}

/// On any solver results: the header and insights rows span the screen's
/// width, the two columns share the main row's top and height, the detail
/// and graph panels share the right column's left edge and width, and all
/// five areas lie within the screen.
pub proof fn lemma_layout_geometry(layout: Layout, area: Rect, rows: Seq<Rect>, columns: Seq<Rect>, parts: Seq<Rect>)
    requires
        layout.splits_of(area, rows, columns, parts),
    ensures
        ({
            let a = layout.assembled(rows, columns, parts);
            let (header, main, bottom) = layout.rows_of(rows);
            let (left, right) = layout.columns_of(columns);
            &&& a.header.x == area.x && a.header.width == area.width
            &&& a.bottom.x == area.x && a.bottom.width == area.width
            &&& left.y == main.y && left.height == main.height
            &&& right.y == main.y && right.height == main.height
            &&& a.detail_panel.x == right.x && a.detail_panel.width == right.width
            &&& a.graph_panel.x == right.x && a.graph_panel.width == right.width
            &&& area.contains(a.header) && area.contains(a.left_panel) && area.contains(a.detail_panel)
            &&& area.contains(a.graph_panel) && area.contains(a.bottom)
        }),
{
    let (row_0, row_1, row_2) = (rows[0], rows[1], rows[2]);
    let (column_0, column_1) = (columns[0], columns[1]);
    let (part_0, part_1) = (parts[0], parts[1]);
    let (header, main, bottom) = layout.rows_of(rows);
    let (left, right) = layout.columns_of(columns);
    assert(area.contains(main));
    assert(main.contains(left) && main.contains(right));
    assert(right.contains(part_0) && right.contains(part_1));
}

/// What each area was asked for. The header is the first row, asked for
/// exactly `header_height` rows; the insights bar is the second row when it
/// is on top and the third otherwise, asked for exactly `bottom_height`
/// rows; the main row is the remaining one, asked for at least
/// `center_height` rows. The main row is split into a left column asked for
/// `left_width_percent` percent of its width and a right column asked for
/// the rest; the left panel is the left column unless the split is
/// inverted. The right panel (the other column) is split into a top part
/// asked for `side_vertical_split_percent` percent of its height and a lower
/// part asked for the rest; the detail panel is the top part unless the side
/// split is inverted, the graph panel the other. Columns and side parts
/// overlap by one cell when borders are collapsed, by none otherwise; rows
/// never overlap.
pub proof fn lemma_panel_requests(layout: Layout, area: Rect, rows: Seq<Rect>, columns: Seq<Rect>, parts: Seq<Rect>)
    requires
        layout.splits_of(area, rows, columns, parts),
    ensures
        ({
            let a = layout.assembled(rows, columns, parts);
            let overlap: u16 = if layout.collapse_borders { 1 } else { 0 };
            let main = if layout.put_insights_on_top { rows[2] } else { rows[1] };
            let right = if layout.invert_horizontal_split { columns[0] } else { columns[1] };
            &&& a.header == rows[0]
            &&& a.bottom == if layout.put_insights_on_top { rows[1] } else { rows[2] }
            &&& layout.put_insights_on_top ==> split_outcome(
                Direction::Vertical,
                0,
                seq![
                    Constraint::Length(layout.header_height),
                    Constraint::Length(layout.bottom_height),
                    Constraint::Min(layout.center_height),
                ],
                area,
                rows,
            )
            &&& !layout.put_insights_on_top ==> split_outcome(
                Direction::Vertical,
                0,
                seq![
                    Constraint::Length(layout.header_height),
                    Constraint::Min(layout.center_height),
                    Constraint::Length(layout.bottom_height),
                ],
                area,
                rows,
            )
            &&& split_outcome(
                Direction::Horizontal,
                overlap,
                seq![
                    Constraint::Percentage(layout.left_width_percent),
                    Constraint::Percentage((100 - layout.left_width_percent) as u16),
                ],
                main,
                columns,
            )
            &&& a.left_panel == if layout.invert_horizontal_split { columns[1] } else { columns[0] }
            &&& split_outcome(
                Direction::Vertical,
                overlap,
                seq![
                    Constraint::Percentage(layout.side_vertical_split_percent),
                    Constraint::Percentage((100 - layout.side_vertical_split_percent) as u16),
                ],
                right,
                parts,
            )
            &&& a.detail_panel == if layout.invert_side_vertical_split { parts[1] } else { parts[0] }
            &&& a.graph_panel == if layout.invert_side_vertical_split { parts[0] } else { parts[1] }
        }),
{
    assert(layout.overlap() == if layout.collapse_borders { 1u16 } else { 0u16 });
}

impl Default for Layout {
    fn default() -> (r: Self)
        ensures
            r == (Layout {
                header_height: 1,
                center_height: 10,
                bottom_height: 4,
                left_width_percent: 40,
                side_vertical_split_percent: 60,
                invert_horizontal_split: false,
                invert_side_vertical_split: false,
                put_insights_on_top: false,
                collapse_borders: true,
            }),
    {
        Self::new()
    }
}

} // verus!
