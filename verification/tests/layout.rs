use memtui::ui::layout::{Layout, Rect};

#[test]
fn default_layout_calculation() {
    let layout = Layout::new();
    let area = Rect::new(0, 0, 100, 50);
    let areas = layout.calculate(area);

    assert_eq!(areas.header.y, 0);
    assert_eq!(areas.header.height, 1);
    assert_eq!(areas.bottom.height, 4);
    assert_eq!(areas.bottom.y, 50 - 4);
    assert!(
        areas.left_panel.width < areas.detail_panel.width
            || areas.left_panel.x < areas.detail_panel.x
    );
}

#[test]
fn put_insights_on_top_inverts_vertical_order() {
    let mut layout = Layout::new();
    layout.put_insights_on_top = true;
    let area = Rect::new(0, 0, 100, 50);
    let areas = layout.calculate(area);

    assert_eq!(areas.header.y, 0);
    assert_eq!(areas.header.height, 1);
    // Insights (bottom area) should be directly below the header
    assert_eq!(areas.bottom.y, 1);
    assert_eq!(areas.bottom.height, 4);
    // Left panel should start below insights
    assert_eq!(areas.left_panel.y, 1 + 4);
}

#[test]
fn invert_horizontal_and_side_split() {
    let mut layout = Layout::new();
    layout.invert_horizontal_split = true;
    layout.invert_side_vertical_split = true;
    let area = Rect::new(0, 0, 100, 50);
    let areas = layout.calculate(area);

    // Right panel should now be on the left (x = 0)
    assert_eq!(areas.detail_panel.x, 0);
    assert_eq!(areas.graph_panel.x, 0);
    // Graph panel should be above detail panel
    assert!(areas.graph_panel.y < areas.detail_panel.y);
}

#[test]
fn default_layout_exact_areas() {
    let areas = Layout::new().calculate(Rect::new(0, 0, 100, 50));
    assert_eq!(areas.header, Rect { x: 0, y: 0, width: 100, height: 1 });
    assert_eq!(areas.bottom, Rect { x: 0, y: 46, width: 100, height: 4 });
    assert_eq!((areas.left_panel.x, areas.left_panel.y, areas.left_panel.height), (0, 1, 45));
    // collapsed borders: the columns share one border column
    assert_eq!(areas.detail_panel.x, areas.left_panel.x + areas.left_panel.width - 1);
    assert!(areas.detail_panel.x + areas.detail_panel.width <= 100);
    assert_eq!(areas.graph_panel.x, areas.detail_panel.x);
    assert_eq!(areas.graph_panel.width, areas.detail_panel.width);
    assert!(areas.detail_panel.y < areas.graph_panel.y);
}

#[test]
fn collapsed_borders_share_one_cell() {
    let mut layout = Layout::new();
    let areas = layout.calculate(Rect::new(0, 0, 100, 50));
    assert_eq!(areas.detail_panel.y + areas.detail_panel.height, areas.graph_panel.y + 1);
    assert_eq!(areas.left_panel.x + areas.left_panel.width, areas.detail_panel.x + 1);
    layout.collapse_borders = false;
    let areas = layout.calculate(Rect::new(0, 0, 100, 50));
    assert_eq!(areas.detail_panel.y + areas.detail_panel.height, areas.graph_panel.y);
    assert_eq!(areas.left_panel.x + areas.left_panel.width, areas.detail_panel.x);
    assert_eq!((areas.left_panel.width, areas.detail_panel.width), (40, 60));
}

#[test]
fn inverting_horizontal_split_swaps_columns() {
    let layout = Layout::new();
    let mut flipped = Layout::new();
    flipped.invert_horizontal_split = true;
    let a = layout.calculate(Rect::new(0, 0, 100, 50));
    let b = flipped.calculate(Rect::new(0, 0, 100, 50));
    assert_eq!(a.header, b.header);
    assert_eq!(a.bottom, b.bottom);
    assert_eq!((b.left_panel.x, b.left_panel.width), (a.detail_panel.x, a.detail_panel.width));
    assert_eq!((b.detail_panel.x, b.detail_panel.width), (a.left_panel.x, a.left_panel.width));
    assert_eq!((b.left_panel.y, b.left_panel.height), (a.left_panel.y, a.left_panel.height));
}

#[test]
fn inverting_side_split_swaps_panels() {
    let layout = Layout::new();
    let mut flipped = Layout::new();
    flipped.invert_side_vertical_split = true;
    let a = layout.calculate(Rect::new(3, 2, 90, 40));
    let b = flipped.calculate(Rect::new(3, 2, 90, 40));
    assert_eq!(a.detail_panel, b.graph_panel);
    assert_eq!(a.graph_panel, b.detail_panel);
    assert_eq!(a.header, b.header);
    assert_eq!(a.left_panel, b.left_panel);
    assert_eq!(a.bottom, b.bottom);
}

#[test]
fn rows_span_the_whole_width() {
    let areas = Layout::new().calculate(Rect::new(5, 7, 80, 30));
    assert_eq!((areas.header.x, areas.header.width), (5, 80));
    assert_eq!((areas.bottom.x, areas.bottom.width), (5, 80));
}

#[test]
fn rect_new_saturates_at_the_edge() {
    let r = Rect::new(65530, 65535, 10, 3);
    assert_eq!(r, Rect { x: 65530, y: 65535, width: 5, height: 0 });
    assert_eq!(Rect::new(1, 2, 3, 4), Rect { x: 1, y: 2, width: 3, height: 4 });
}

#[test]
fn pick_functions_follow_the_flags() {
    let a = Rect { x: 0, y: 0, width: 1, height: 1 };
    let b = Rect { x: 1, y: 0, width: 1, height: 1 };
    let c = Rect { x: 2, y: 0, width: 1, height: 1 };
    let mut layout = Layout::new();
    assert_eq!(layout.pick_rows(&[a, b, c]), (a, b, c));
    assert_eq!(layout.pick_columns(&[a, b]), (a, b));
    assert_eq!(layout.pick_side(&[a, b]), (a, b));
    layout.put_insights_on_top = true;
    layout.invert_horizontal_split = true;
    layout.invert_side_vertical_split = true;
    assert_eq!(layout.pick_rows(&[a, b, c]), (a, c, b));
    assert_eq!(layout.pick_columns(&[a, b]), (b, a));
    assert_eq!(layout.pick_side(&[a, b]), (b, a));
}

#[test]
fn layout_defaults() {
    let layout = Layout::default();
    assert_eq!(layout, Layout::new());
    assert_eq!(layout.header_height, 1);
    assert_eq!(layout.center_height, 10);
    assert_eq!(layout.bottom_height, 4);
    assert_eq!(layout.left_width_percent, 40);
    assert_eq!(layout.side_vertical_split_percent, 60);
    assert!(layout.collapse_borders);
    let config = memtui::config::Config::default();
    assert_eq!(config.layout.header_height, 1);
    assert_eq!(config.layout.bottom_height, 4);
    assert_eq!(config.layout.left_width_percent, 40);
}

fn inside(outer: Rect, inner: Rect) -> bool {
    let right = |r: Rect| r.x.saturating_add(r.width);
    let bottom = |r: Rect| r.y.saturating_add(r.height);
    outer.x <= inner.x && right(inner) <= right(outer) && outer.y <= inner.y && bottom(inner) <= bottom(outer)
}

#[test]
fn all_areas_lie_within_the_screen() {
    for &(w, h) in &[(100u16, 50u16), (10, 5), (3, 2), (0, 0), (200, 17)] {
        for flags in 0..16u8 {
            let mut layout = Layout::new();
            layout.invert_horizontal_split = flags & 1 != 0;
            layout.invert_side_vertical_split = flags & 2 != 0;
            layout.put_insights_on_top = flags & 4 != 0;
            layout.collapse_borders = flags & 8 != 0;
            let area = Rect::new(2, 3, w, h);
            let a = layout.calculate(area);
            for r in [a.header, a.left_panel, a.detail_panel, a.graph_panel, a.bottom] {
                assert!(inside(area, r), "{:?} not in {:?}", r, area);
            }
        }
    }
}

#[test]
fn collapsed_borders_leave_the_last_column_free() {
    let areas = Layout::new().calculate(Rect::new(0, 0, 100, 50));
    assert_eq!(areas.left_panel.width, 40);
    assert_eq!((areas.detail_panel.x, areas.detail_panel.width), (39, 60));
}
