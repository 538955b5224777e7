use shmooz::error::AppError;
use shmooz::output::{
    guess_logical_geometry, is_quarter_turn, output_matches_filter, selected_outputs, OutputState,
    OutputTransform,
};

#[test]
fn output_filter_requires_exact_name_match() {
    let mut output = OutputState::new(1);
    output.name = Some("DP-1".to_owned());

    assert!(output_matches_filter(&output, None));
    assert!(output_matches_filter(&output, Some("DP-1")));
    assert!(!output_matches_filter(&output, Some("dp-1")));
    assert!(!output_matches_filter(&output, Some("DP")));
}

#[test]
fn output_filter_rejects_unnamed_output_when_filter_is_set() {
    let output = OutputState::new(1);
    assert!(!output_matches_filter(&output, Some("DP-1")));
}

#[test]
fn guessed_logical_geometry_swaps_dimensions_for_rotated_outputs() {
    let mut output = OutputState::new(7);
    output.geometry.x = 10;
    output.geometry.y = 20;
    output.geometry.width = 3840;
    output.geometry.height = 2160;
    output.scale = 2;
    output.transform = OutputTransform::Rotate90;

    let logical_scale = f64::from(guess_logical_geometry(&mut output));

    assert_eq!(output.logical_geometry.x, 10);
    assert_eq!(output.logical_geometry.y, 20);
    assert_eq!(output.logical_geometry.width, 1080);
    assert_eq!(output.logical_geometry.height, 1920);
    assert_eq!(logical_scale, 2.0);
}

#[test]
fn quarter_turns_swap_the_mode() {
    assert!(is_quarter_turn(OutputTransform::Flipped270));
    assert!(!is_quarter_turn(OutputTransform::Rotate180));
    let mut output = OutputState::new(1);
    output.transform = OutputTransform::Rotate270;
    output.update_current_mode(1920, 1080);
    assert_eq!((output.geometry.width, output.geometry.height), (1080, 1920));
    assert_eq!(output.logical_size(), (1080, 1920));
}

#[test]
fn selected_outputs_reports_each_failure() {
    assert_eq!(selected_outputs(&Vec::new(), None), Err(AppError::NoOutputs));
    let mut a = OutputState::new(1);
    a.name = Some("DP-1".to_owned());
    let b = OutputState::new(2);
    let outputs = vec![a, b];
    assert_eq!(selected_outputs(&outputs, None), Ok(vec![0, 1]));
    assert_eq!(selected_outputs(&outputs, Some("DP-1")), Ok(vec![0]));
    assert_eq!(
        selected_outputs(&outputs, Some("HDMI-A-1")),
        Err(AppError::OutputNotFound { name: "HDMI-A-1".to_owned() })
    );
}
