use cgrustplot::plots::animation_plot::animation_plot;
use cgrustplot::plots::animation_plot::EncodingSpeed;

#[test]
fn animation_builder_defaults() {
    let frames: Vec<Vec<Vec<(u8, u8, u8)>>> = vec![vec![vec![(0, 0, 0)]]];
    let mut b = animation_plot(&frames);
    let plot = b.build();
    assert!(plot.path.is_none());
    assert_eq!(plot.framerate, 30);
    assert_eq!(plot.compression, 23);
    assert_eq!(plot.encoding_speed.preset_str(), "fast");
    assert!(!plot.overwrite);
}

#[test]
fn animation_builder_set_options() {
    let frames: Vec<Vec<Vec<(u8, u8, u8)>>> = vec![vec![vec![(1, 2, 3)]]];
    let mut b = animation_plot(&frames);
    b.set_framerate(10);
    b.set_compression(18);
    b.set_encoding_speed(EncodingSpeed::Veryslow);
    b.set_overwrite(true);
    let plot = b.build();
    assert_eq!(plot.framerate, 10);
    assert_eq!(plot.compression, 18);
    assert_eq!(plot.encoding_speed.preset_str(), "veryslow");
    assert!(plot.overwrite);
}

#[test]
fn animation_builder_abs_path_extension() {
    let frames: Vec<Vec<Vec<(u8, u8, u8)>>> = vec![vec![vec![(0, 0, 0)]]];
    let mut b = animation_plot(&frames);
    b.set_abs_path("/tmp/out");
    assert_eq!(b.build().path.as_deref(), Some("/tmp/out.mp4"));

    let mut b2 = animation_plot(&frames);
    b2.set_abs_path("/tmp/movie.mp4");
    assert_eq!(b2.build().path.as_deref(), Some("/tmp/movie.mp4"));
}

#[test]
fn encoding_speed_preset_names() {
    assert_eq!(EncodingSpeed::Ultrafast.preset_str(), "ultrafast");
    assert_eq!(EncodingSpeed::Medium.preset_str(), "medium");
    assert_eq!(EncodingSpeed::Slower.preset_str(), "slower");
}
