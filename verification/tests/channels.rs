use rubato::ShapeError;
use rubato::active_channels;

#[test]
fn wrong_channel_count_is_rejected() {
    let lens = vec![1024usize, 1024, 1024];
    let r = active_channels(2, 1024, &lens);
    assert_eq!(r, Err(ShapeError::WrongChannelCount));
}

#[test]
fn wrong_frame_count_is_rejected() {
    let lens = vec![1024usize, 500];
    let r = active_channels(2, 1024, &lens);
    assert_eq!(r, Err(ShapeError::WrongFrameCount));
}

#[test]
fn channel_count_is_checked_first() {
    let lens = vec![500usize];
    let r = active_channels(2, 1024, &lens);
    assert_eq!(r, Err(ShapeError::WrongChannelCount));
}

#[test]
fn empty_channel_is_skipped() {
    let lens = vec![1024usize, 0];
    let r = active_channels(2, 1024, &lens);
    assert_eq!(r, Ok(vec![0]));
}

#[test]
fn emptying_a_channel_keeps_the_others_active() {
    let full = vec![512usize, 512, 512];
    let muted = vec![512usize, 0, 512];
    assert_eq!(active_channels(3, 512, &full), Ok(vec![0, 1, 2]));
    assert_eq!(active_channels(3, 512, &muted), Ok(vec![0, 2]));
}

#[test]
fn all_channels_empty_is_accepted() {
    let lens = vec![0usize, 0];
    let r = active_channels(2, 1024, &lens);
    assert_eq!(r, Ok(Vec::new()));
}

#[test]
fn outputs_of_skipped_channels_are_empty() {
    let active = vec![0usize, 2];
    let out = rubato::allocate_outputs(3, &active, 4, 0.0f64);
    assert_eq!(out.len(), 3);
    assert_eq!(out[0], vec![0.0; 4]);
    assert!(out[1].is_empty());
    assert_eq!(out[2], vec![0.0; 4]);
}

#[test]
fn truncation_trims_only_active_channels() {
    let mut out = vec![vec![1.0f64, 2.0, 3.0, 4.0], vec![9.0f64, 9.0], vec![5.0f64, 6.0, 7.0]];
    let active = vec![0usize, 2];
    rubato::truncate_outputs(&mut out, &active, 2);
    assert_eq!(out[0], vec![1.0, 2.0]);
    assert_eq!(out[1], vec![9.0, 9.0]);
    assert_eq!(out[2], vec![5.0, 6.0]);
}

#[test]
fn truncation_beyond_the_length_is_a_no_op() {
    let mut out = vec![vec![1.0f32, 2.0]];
    let active = vec![0usize];
    rubato::truncate_outputs(&mut out, &active, 10);
    assert_eq!(out[0], vec![1.0, 2.0]);
}
