use statelapse::render::{compose_canvas, state_color, Color};
use statelapse::state::{Operation, State, StateCounts};
use statelapse::summary::{frame_index_label, grouped_count, summary_lines, u64_to_decimal};
use statelapse::FileState;

#[test]
fn state_colors_are_fixed() {
    assert_eq!(state_color(&FileState::Present), Color { r: 0, g: 255, b: 0 });
    assert_eq!(state_color(&FileState::DeleteMarker), Color { r: 255, g: 255, b: 0 });
    assert_eq!(state_color(&FileState::Expired), Color { r: 255, g: 0, b: 0 });
    assert_eq!(state_color(&FileState::DeleteMarkerDeleted), Color { r: 0, g: 0, b: 0 });
    assert_eq!(state_color(&FileState::WeirdCase), Color { r: 0, g: 0, b: 0 });
}

#[test]
fn raster_paints_states_and_background() {
    let mut s = State::new(vec![0], 2, 8);
    s.set_item(1, 2, &Operation::Delete).unwrap();
    // Two objects: side = isqrt(2) + 1 = 2, so a 2x2 raster of 12 bytes.
    assert_eq!(s.image_size, 2);
    let raster = s.render_raster();
    assert_eq!(raster.len(), 12);
    // Present green, DeleteMarker yellow, background black.
    assert_eq!(&raster[0..3], &[0, 255, 0]);
    assert_eq!(&raster[3..6], &[255, 255, 0]);
    assert_eq!(&raster[6..9], &[0, 0, 0]);
    assert_eq!(&raster[9..12], &[0, 0, 0]);
}

#[test]
fn canvas_has_white_margin_and_raster_below() {
    let resized = vec![7u8; 3 * 4 * 4];
    let canvas = compose_canvas(&resized, 4);
    assert_eq!(canvas.len(), 3 * 4 * (4 + 400));
    let margin = 3 * 4 * 400;
    for i in 0..margin {
        assert_eq!(canvas[i], 255);
    }
    for i in 0..resized.len() {
        assert_eq!(canvas[margin + i], 7);
    }
}

#[test]
fn frame_spans_output_size_plus_margin() {
    let s = State::new(vec![0], 9, 16);
    let frame = s.get_frame();
    assert_eq!(frame.len(), 3 * 16 * (16 + 400));
    // The margin rows come out white.
    for i in 0..(3 * 16 * 400) {
        assert_eq!(frame[i], 255);
    }
}

#[test]
fn decimal_rendering_is_plain() {
    assert_eq!(u64_to_decimal(0), "0");
    assert_eq!(u64_to_decimal(7), "7");
    assert_eq!(u64_to_decimal(12034), "12034");
    assert_eq!(u64_to_decimal(u64::MAX), "18446744073709551615");
}

#[test]
fn counts_group_thousands_with_commas() {
    assert_eq!(grouped_count(0), "0");
    assert_eq!(grouped_count(999), "999");
    assert_eq!(grouped_count(1000), "1,000");
    assert_eq!(grouped_count(1_234_567), "1,234,567");
    assert_eq!(grouped_count(940_370_485), "940,370,485");
    assert_eq!(grouped_count(1_000_007), "1,000,007");
}

#[test]
fn frame_labels_are_zero_padded_to_four() {
    assert_eq!(frame_index_label(0), "0000");
    assert_eq!(frame_index_label(42), "0042");
    assert_eq!(frame_index_label(999), "0999");
    assert_eq!(frame_index_label(1000), "1000");
    assert_eq!(frame_index_label(12345), "12345");
}

#[test]
fn summary_lines_name_every_aggregate() {
    let counts = StateCounts {
        present: 1_000_000,
        delete_marker: 2500,
        expired: 17,
        delete_marker_deleted: 0,
        weird_case: 3,
    };
    let lines = summary_lines(27, &counts, 1200);
    assert_eq!(
        lines,
        vec![
            "Hours: 27".to_string(),
            "Present: 1,000,000".to_string(),
            "Delete Marker: 2,500".to_string(),
            "Expired: 17".to_string(),
            "Completed: 0".to_string(),
            "Per second: 1,200".to_string(),
        ]
    );
}
