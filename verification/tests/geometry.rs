use hayabusa::geometry::{
    get_cell_size, get_target_rows, plan_stage, Probe, ProbeError, StageError, StagePlan,
    TerminalSize, WindowSize,
};

fn window(rows: u16, columns: u16, pixel_width: u16, pixel_height: u16) -> Probe {
    Probe::Reported(WindowSize { rows, columns, pixel_width, pixel_height })
}

fn cells(cell_width: u16, cell_height: u16) -> TerminalSize {
    TerminalSize { width: 80, height: 24, cell_width, cell_height }
}

#[test]
fn the_cell_is_the_window_divided_by_its_characters() {
    assert_eq!(
        get_cell_size(window(24, 80, 800, 480)),
        Ok(TerminalSize { width: 80, height: 24, cell_width: 10, cell_height: 20 })
    );
    assert_eq!(
        get_cell_size(window(50, 211, 1899, 1000)),
        Ok(TerminalSize { width: 211, height: 50, cell_width: 9, cell_height: 20 })
    );
}

#[test]
fn a_window_without_pixels_is_not_compliant() {
    assert_eq!(get_cell_size(window(24, 80, 0, 0)), Err(ProbeError::NonCompliant));
    assert_eq!(get_cell_size(window(24, 80, 800, 0)), Err(ProbeError::NonCompliant));
    assert_eq!(get_cell_size(window(24, 80, 0, 480)), Err(ProbeError::NonCompliant));
    assert_eq!(get_cell_size(window(24, 80, 79, 480)), Err(ProbeError::NonCompliant));
    assert_eq!(get_cell_size(window(24, 80, 800, 23)), Err(ProbeError::NonCompliant));
}

#[test]
fn a_window_without_characters_is_not_compliant() {
    assert_eq!(get_cell_size(window(0, 80, 800, 480)), Err(ProbeError::NonCompliant));
    assert_eq!(get_cell_size(window(24, 0, 800, 480)), Err(ProbeError::NonCompliant));
    assert_eq!(get_cell_size(window(0, 0, 0, 0)), Err(ProbeError::NonCompliant));
}

#[test]
fn a_failed_query_and_a_platform_without_one_are_told_apart() {
    assert_eq!(get_cell_size(Probe::Failed), Err(ProbeError::QueryFailed));
    assert_eq!(get_cell_size(Probe::Unsupported), Err(ProbeError::Unsupported));
}

#[test]
fn probe_errors_say_why() {
    assert_eq!(ProbeError::QueryFailed.message(), "Failed to get terminal size");
    assert_eq!(
        ProbeError::NonCompliant.message(),
        "Failed to retrieve terminal info, ensure you're using a compliant terminal."
    );
    assert_eq!(
        ProbeError::Unsupported.message(),
        "Windows does not support the proper protocols"
    );
}

#[test]
fn stage_errors_say_why() {
    assert_eq!(StageError::EmptyImage.message(), "The image has no pixels");
    assert_eq!(StageError::EmptyCell.message(), "A terminal cell has no pixels");
    assert_eq!(StageError::EmptyTarget.message(), "The scaled image would have no pixels");
    assert_eq!(StageError::TooLarge.message(), "The scaled image is too large");
    assert_eq!(StageError::Undecodable.message(), "Failed to load image");
    assert_eq!(StageError::Unencodable.message(), "Failed to write canvas");
}

#[test]
fn rows_are_the_cells_of_the_scaled_height_and_one_more() {
    // 50 columns of 10 pixels: 500 wide; 100 by 100 scales to 500 high; 25 cells of 20.
    assert_eq!(get_target_rows(100, 100, 50, &cells(10, 20)), Ok(26));
    // 200 by 100 scales to 500 by 250: 12.5 cells, so 13 and one more.
    assert_eq!(get_target_rows(200, 100, 50, &cells(10, 20)), Ok(14));
    // 3 by 1 scales to 500 by 166: 8.3 cells.
    assert_eq!(get_target_rows(3, 1, 50, &cells(10, 20)), Ok(10));
    // Nothing to show still takes the one row.
    assert_eq!(get_target_rows(100, 0, 50, &cells(10, 20)), Ok(1));
    assert_eq!(get_target_rows(100, 100, 0, &cells(10, 20)), Ok(1));
}

#[test]
fn rows_of_the_largest_sizes_do_not_overflow() {
    assert_eq!(
        get_target_rows(1, u32::MAX, u16::MAX, &cells(u16::MAX, 1)),
        Ok(65535u64 * 65535 * 4294967295 + 1)
    );
}

#[test]
fn rows_need_an_image_and_a_cell() {
    assert_eq!(get_target_rows(0, 100, 50, &cells(10, 20)), Err(StageError::EmptyImage));
    assert_eq!(get_target_rows(100, 100, 50, &cells(10, 0)), Err(StageError::EmptyCell));
}

#[test]
fn the_plan_keeps_the_aspect_and_rounds_the_canvas_to_cells() {
    assert_eq!(
        plan_stage(100, 100, 50, &cells(10, 20)),
        Ok(StagePlan { target_width: 500, target_height: 500, canvas_height: 500, offset_y: 0 })
    );
    assert_eq!(
        plan_stage(200, 100, 50, &cells(10, 20)),
        Ok(StagePlan { target_width: 500, target_height: 250, canvas_height: 260, offset_y: 5 })
    );
    assert_eq!(
        plan_stage(3, 1, 50, &cells(10, 20)),
        Ok(StagePlan { target_width: 500, target_height: 166, canvas_height: 180, offset_y: 7 })
    );
    assert_eq!(
        plan_stage(4, 2, 2, &cells(3, 4)),
        Ok(StagePlan { target_width: 6, target_height: 3, canvas_height: 4, offset_y: 0 })
    );
}

#[test]
fn there_is_no_plan_without_pixels() {
    assert_eq!(plan_stage(0, 100, 50, &cells(10, 20)), Err(StageError::EmptyImage));
    assert_eq!(plan_stage(100, 0, 50, &cells(10, 20)), Err(StageError::EmptyImage));
    assert_eq!(plan_stage(100, 100, 50, &cells(0, 20)), Err(StageError::EmptyCell));
    assert_eq!(plan_stage(100, 100, 50, &cells(10, 0)), Err(StageError::EmptyCell));
    assert_eq!(plan_stage(100, 100, 0, &cells(10, 20)), Err(StageError::EmptyTarget));
    assert_eq!(plan_stage(1000, 1, 50, &cells(10, 20)), Err(StageError::EmptyTarget));
}

#[test]
fn there_is_no_plan_for_what_does_not_fit() {
    assert_eq!(
        plan_stage(1, u32::MAX, u16::MAX, &cells(u16::MAX, 1)),
        Err(StageError::TooLarge)
    );
    assert_eq!(plan_stage(1, 70000, 65535, &cells(1, 7)), Err(StageError::TooLarge));
}
