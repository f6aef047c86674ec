use carcinisation::depth::Depth;
use carcinisation::overrides::{effective_override, override_step, span_in_force};

/// Full parallax, used where neither a step nor the stage sets attenuation.
const FULL_PARALLAX: f32 = 1.0;

fn attenuation(steps: &Vec<Option<f32>>, stage_default: Option<f32>, step_index: usize) -> f32 {
    effective_override(steps, step_index, stage_default.unwrap_or(FULL_PARALLAX))
}

#[test]
fn effective_attenuation_defaults_to_one() {
    let steps = vec![None];
    assert!((attenuation(&steps, None, 0) - 1.0).abs() < f32::EPSILON);
}

#[test]
fn effective_attenuation_reads_step_value() {
    let steps = vec![Some(0.3)];
    assert!((attenuation(&steps, None, 0) - 0.3).abs() < f32::EPSILON);
}

#[test]
fn effective_attenuation_sticky_carry_forward() {
    let steps = vec![Some(0.5), None];
    assert!((attenuation(&steps, None, 1) - 0.5).abs() < f32::EPSILON);
}

#[test]
fn effective_attenuation_later_override_wins() {
    let steps = vec![Some(0.5), Some(0.8)];
    assert!((attenuation(&steps, None, 0) - 0.5).abs() < f32::EPSILON);
    assert!((attenuation(&steps, None, 1) - 0.8).abs() < f32::EPSILON);
}

#[test]
fn effective_attenuation_uses_stage_default() {
    let steps = vec![None];
    assert!((attenuation(&steps, Some(0.7), 0) - 0.7).abs() < f32::EPSILON);
}

#[test]
fn override_of_an_earlier_step_carries_past_later_steps() {
    // A tween with no floors, a stop that anchors lane four, another tween.
    let surfaces: Vec<Option<Vec<(Depth, Depth)>>> =
        vec![None, Some(vec![(Depth::Four, Depth::Four)]), None];
    assert_eq!(override_step(&surfaces, 0), None);
    assert_eq!(override_step(&surfaces, 1), Some(1));
    assert_eq!(override_step(&surfaces, 2), Some(1));
    let spans = surfaces[1].clone().unwrap();
    assert_eq!(span_in_force(&spans, Depth::Four), Some(0));
    assert_eq!(span_in_force(&spans, Depth::Five), None);
}

#[test]
fn step_index_past_the_end_reads_the_last_step() {
    let steps = vec![Some(0.2), None, Some(0.9)];
    assert!((attenuation(&steps, None, 7) - 0.9).abs() < f32::EPSILON);
    assert_eq!(override_step(&steps, 7), Some(2));
    let empty: Vec<Option<f32>> = Vec::new();
    assert_eq!(override_step(&empty, 0), None);
    assert!((attenuation(&empty, Some(0.4), 3) - 0.4).abs() < f32::EPSILON);
}

#[test]
fn later_span_decides_a_lane_two_spans_hold() {
    let spans = vec![(Depth::Three, Depth::Five), (Depth::Four, Depth::Four)];
    assert_eq!(span_in_force(&spans, Depth::Three), Some(0));
    assert_eq!(span_in_force(&spans, Depth::Four), Some(1));
    assert_eq!(span_in_force(&spans, Depth::Five), Some(0));
    assert_eq!(span_in_force(&spans, Depth::Two), None);
    assert_eq!(span_in_force(&spans, Depth::Six), None);
}

#[test]
fn gap_span_covers_both_ends_of_its_range() {
    let spans = vec![(Depth::Two, Depth::Three)];
    assert_eq!(span_in_force(&spans, Depth::Two), Some(0));
    assert_eq!(span_in_force(&spans, Depth::Three), Some(0));
    assert_eq!(span_in_force(&spans, Depth::One), None);
}
