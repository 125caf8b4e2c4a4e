use lazymvn::ui::panes::layout::{
    adaptive_panes, create_adaptive_layout, left_column_constraints, left_column_width, single_column_constraints,
    single_column_panes, two_column_panes, Focus, PaneArea,
};
use lazymvn::ui::panes::layout::PaneConstraint::{Length, Min, Percentage};

fn area(width: u16, height: u16) -> PaneArea {
    PaneArea { x: 0, y: 0, width, height }
}

#[test]
fn layout_test_adaptive_layout_narrow_terminal() {
    let (tab, proj, _mods, _profs, _flags, out, foot) =
        create_adaptive_layout(area(70, 40), Some(Focus::Output));
    assert_eq!(tab.height, 2);
    assert_eq!(foot.height, 10);
    assert!(out.height > proj.height);
}

#[test]
fn layout_test_adaptive_layout_wide_terminal() {
    let (tab, _proj, _mods, _profs, _flags, out, foot) =
        create_adaptive_layout(area(120, 40), Some(Focus::Output));
    assert_eq!(tab.height, 2);
    assert_eq!(foot.height, 10);
    assert!(out.width > 80);
}

#[test]
fn layout_test_adaptive_layout_short_height_expands_focused() {
    let (_tab, proj, mods, profs, flags, _out, _foot) =
        create_adaptive_layout(area(80, 20), Some(Focus::Modules));
    assert!(mods.height > proj.height);
    assert!(mods.height > profs.height);
    assert!(mods.height > flags.height);
}

#[test]
fn layout_test_adaptive_layout_normal_height_standard_layout() {
    let (_tab, proj, mods, profs, flags, _out, _foot) = create_adaptive_layout(area(100, 40), None);
    assert!(proj.height >= 3);
    assert!(mods.height >= 3);
    assert!(profs.height >= 3);
    assert!(flags.height >= 3);
}

#[test]
fn test_adaptive_layout_limits_left_column_width() {
    let (_tab, proj, _mods, _profs, _flags, out, _foot) = create_adaptive_layout(area(200, 40), None);
    assert!(proj.width <= 40, "Left column width should not exceed 40, got {}", proj.width);
    assert!(out.width >= 160, "Output should use remaining space, got {}", out.width);
}

#[test]
fn test_adaptive_layout_normal_width_uses_percentage() {
    let (_tab, proj, _mods, _profs, _flags, out, _foot) = create_adaptive_layout(area(200, 40), None);
    assert!(proj.width <= 40, "Left column should be capped at 40, got {}", proj.width);
    assert!(out.width >= 150, "Output should have at least 150 chars, got {}", out.width);
}

#[test]
fn test_adaptive_layout_switches_to_single_column_for_narrow_output() {
    let (_tab, proj, _mods, _profs, _flags, out, _foot) = create_adaptive_layout(area(100, 40), None);
    assert_eq!(proj.width, 100, "Should use single column (full width), got {}", proj.width);
    assert_eq!(out.width, 100, "Output should use full width in single column, got {}", out.width);
    assert!(out.y > proj.y, "Output should be below projects in single column");
}

#[test]
fn mod_test_adaptive_layout_narrow_terminal() {
    let (_, _, modules_area, _, _, output_area, _) =
        create_adaptive_layout(area(60, 40), Some(Focus::Modules));
    assert_eq!(modules_area.x, output_area.x);
    assert!(modules_area.y > 0);
    assert!(output_area.y > modules_area.y);
}

#[test]
fn mod_test_adaptive_layout_wide_terminal() {
    let (_, _, modules_area, _, _, output_area, _) =
        create_adaptive_layout(area(190, 40), Some(Focus::Modules));
    assert!(output_area.x > modules_area.x);
    assert!(output_area.width >= 150);
}

#[test]
fn mod_test_adaptive_layout_short_height_expands_focused() {
    let (_, projects_area, modules_area, profiles_area, _, _, _) =
        create_adaptive_layout(area(190, 20), Some(Focus::Modules));
    assert!(modules_area.height > projects_area.height);
    assert!(modules_area.height > profiles_area.height);
}

#[test]
fn mod_test_adaptive_layout_normal_height_standard_layout() {
    let (_, projects_area, modules_area, profiles_area, flags_area, _, _) =
        create_adaptive_layout(area(190, 40), Some(Focus::Modules));
    assert_eq!(projects_area.height, 3);
    assert!(modules_area.height > 5);
    assert!(profiles_area.height > 5);
    assert!(flags_area.height > 5);
}

#[test]
fn left_column_width_is_thirty_percent_capped() {
    assert_eq!(left_column_width(100), 30);
    assert_eq!(left_column_width(133), 39);
    assert_eq!(left_column_width(190), 40);
    assert_eq!(left_column_width(0), 0);
}

#[test]
fn single_column_constraints_expand_focused_pane() {
    assert_eq!(
        single_column_constraints(Some(Focus::Modules), true),
        vec![Length(1), Min(5), Length(1), Length(1), Length(1)]
    );
    assert_eq!(
        single_column_constraints(Some(Focus::Flags), false),
        vec![Length(3), Length(3), Length(3), Min(5), Percentage(30)]
    );
    assert_eq!(
        single_column_constraints(None, false),
        vec![Length(3), Length(3), Length(3), Length(3), Min(5)]
    );
}

#[test]
fn left_column_constraints_cases() {
    assert_eq!(
        left_column_constraints(Some(Focus::Projects), true),
        vec![Min(5), Length(3), Length(3), Length(3)]
    );
    assert_eq!(
        left_column_constraints(Some(Focus::Output), true),
        vec![Length(3), Percentage(40), Percentage(30), Percentage(30)]
    );
    assert_eq!(
        left_column_constraints(Some(Focus::Profiles), false),
        vec![Length(3), Percentage(40), Percentage(30), Percentage(30)]
    );
}

fn at(y: u16, height: u16) -> PaneArea {
    PaneArea { x: 1, y, width: 7, height }
}

#[test]
fn panes_are_assembled_in_order() {
    let blocks = vec![at(0, 1), at(1, 2), at(3, 3), at(6, 4), at(10, 5)];
    let foot = at(20, 10);
    assert_eq!(single_column_panes(&blocks, foot), (at(0, 1), at(1, 2), at(3, 3), at(6, 4), at(10, 5), foot));
    let columns = vec![at(0, 30), PaneArea { x: 8, y: 0, width: 50, height: 30 }];
    let left = vec![at(0, 3), at(3, 11), at(14, 8), at(22, 8)];
    assert_eq!(
        two_column_panes(&columns, &left, foot),
        (at(0, 3), at(3, 11), at(14, 8), at(22, 8), columns[1], foot)
    );
    let rows = vec![at(0, 2), at(2, 18), at(20, 10)];
    let panes = (at(2, 1), at(3, 1), at(4, 1), at(5, 1), at(6, 14), at(99, 1));
    assert_eq!(
        adaptive_panes(&rows, panes),
        (at(0, 2), at(2, 1), at(3, 1), at(4, 1), at(5, 1), at(6, 14), at(20, 10))
    );
}
