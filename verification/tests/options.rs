use fractal_tree::options::{
    TreeOptions, FIVE, HALF, MAX_LEVELS, MIN_LEVELS, NINE_TENTHS, ONE, PI, QUARTER_PI,
};

#[test]
fn patterns_are_those_of_the_numbers_they_stand_for() {
    assert_eq!(HALF, 0.5f32.to_bits());
    assert_eq!(NINE_TENTHS, 0.9f32.to_bits());
    assert_eq!(ONE, 1.0f32.to_bits());
    assert_eq!(FIVE, 5.0f32.to_bits());
    assert_eq!(PI, std::f32::consts::PI.to_bits());
    assert_eq!(QUARTER_PI, (std::f32::consts::PI / 4.0).to_bits());
    assert_eq!(MIN_LEVELS, 1);
    assert_eq!(MAX_LEVELS, 20);
}

#[test]
fn default_options_are_as_documented() {
    let options = TreeOptions::new();
    assert_eq!(options.levels, 4);
    assert_eq!(f32::from_bits(options.base_width), 1.0);
    assert_eq!(f32::from_bits(options.base_length), 0.5);
    assert_eq!(f32::from_bits(options.angle_diff), std::f32::consts::PI / 4.0);
    assert_eq!(f32::from_bits(options.length_contraction), 0.5);
    assert_eq!(f32::from_bits(options.width_contraction), 0.9);
    assert!(options.colored);
    assert!(options.is_valid());
}

#[test]
fn options_at_the_ends_of_their_ranges_are_valid() {
    let low = TreeOptions {
        levels: 1,
        base_width: 0.0f32.to_bits(),
        base_length: 0.0f32.to_bits(),
        angle_diff: 0.0f32.to_bits(),
        length_contraction: 0.0f32.to_bits(),
        width_contraction: 0.0f32.to_bits(),
        colored: false,
    };
    assert!(low.is_valid());
    let high = TreeOptions {
        levels: 20,
        base_width: 5.0f32.to_bits(),
        base_length: 1.0f32.to_bits(),
        angle_diff: std::f32::consts::PI.to_bits(),
        length_contraction: 1.0f32.to_bits(),
        width_contraction: 1.0f32.to_bits(),
        colored: true,
    };
    assert!(high.is_valid());
}

#[test]
fn levels_out_of_range_are_not_valid() {
    let base = TreeOptions::new();
    assert!(!TreeOptions { levels: 0, ..base }.is_valid());
    assert!(!TreeOptions { levels: 21, ..base }.is_valid());
    assert!(!TreeOptions { levels: u32::MAX, ..base }.is_valid());
}

#[test]
fn numbers_out_of_range_are_not_valid() {
    let base = TreeOptions::new();
    let above_five = f32::from_bits(FIVE + 1);
    assert!(above_five > 5.0);
    assert!(!TreeOptions { base_width: above_five.to_bits(), ..base }.is_valid());
    assert!(!TreeOptions { base_length: 1.5f32.to_bits(), ..base }.is_valid());
    assert!(!TreeOptions { angle_diff: 4.0f32.to_bits(), ..base }.is_valid());
    assert!(!TreeOptions { length_contraction: 2.0f32.to_bits(), ..base }.is_valid());
    assert!(!TreeOptions { width_contraction: f32::INFINITY.to_bits(), ..base }.is_valid());
    assert!(!TreeOptions { base_width: (-1.0f32).to_bits(), ..base }.is_valid());
    assert!(!TreeOptions { base_length: (-0.0f32).to_bits(), ..base }.is_valid());
    assert!(!TreeOptions { angle_diff: f32::NAN.to_bits(), ..base }.is_valid());
}

#[test]
fn patterns_in_range_are_ordered_as_their_numbers() {
    let samples = [0.0f32, 1.0e-30, 0.1, 0.25, 0.5, 0.9, 1.0, 3.0, 3.1415927, 5.0];
    for pair in samples.windows(2) {
        assert!(pair[0] < pair[1]);
        assert!(pair[0].to_bits() < pair[1].to_bits());
    }
}

#[test]
fn options_are_equal_when_every_field_is() {
    let base = TreeOptions::new();
    assert_eq!(base, TreeOptions::new());
    assert_ne!(base, TreeOptions { levels: 5, ..base });
    assert_ne!(base, TreeOptions { colored: false, ..base });
    assert_ne!(base, TreeOptions { width_contraction: ONE, ..base });
}
