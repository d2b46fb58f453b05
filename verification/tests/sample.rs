use skeletal_anim::sample::{AnimationClip, Playhead, SampleError, SampleNode};
use skeletal_anim::skeleton::Skeleton;
use skeletal_anim::weight::SPEED_ONE;
use web_time::Duration;

fn one_joint() -> Skeleton {
    Skeleton::new(vec![None], vec!["root".to_string()]).unwrap()
}

fn second() -> AnimationClip {
    AnimationClip { id: 7, duration: 1_000_000_000, track_count: 1 }
}

#[test]
fn new_sample_node_is_at_rest() {
    let node = SampleNode::new(&one_joint(), second());
    assert_eq!(
        node,
        SampleNode { clip: Some(second()), joint_count: 1, seek: 0, speed: SPEED_ONE, looping: false }
    );
}

#[test]
fn looping_seek_stays_in_range() {
    let mut node = SampleNode::new(&one_joint(), second());
    node.looping = true;
    let steps: [u64; 6] = [0, 1, 999_999_999, 1_000_000_000, 7_300_000_001, u64::MAX];
    for dt in steps {
        let r = node.advance(dt).unwrap();
        assert!(r.seek < r.duration);
        assert_eq!(r.seek, node.seek);
    }
}

#[test]
fn looping_wraps_exactly() {
    let mut node = SampleNode::new(&one_joint(), second());
    node.looping = true;
    node.seek = 900_000_000;
    assert_eq!(node.advance(2_300_000_000).unwrap().seek, 200_000_000);
}

#[test]
fn one_shot_starts_over_at_the_end() {
    let mut node = SampleNode::new(&one_joint(), second());
    assert_eq!(node.advance(999_999_999).unwrap().seek, 999_999_999);
    assert_eq!(node.advance(1).unwrap().seek, 0);
    assert_eq!(node.advance(400_000_000).unwrap().seek, 400_000_000);
    assert_eq!(node.advance(700_000_000).unwrap().seek, 0);
}

#[test]
fn speed_scales_the_step() {
    let mut node = SampleNode::new(&one_joint(), second());
    node.speed = SPEED_ONE / 2;
    assert_eq!(node.advance(600_000_000).unwrap().seek, 300_000_000);
    node.speed = 0;
    assert_eq!(node.advance(600_000_000).unwrap().seek, 300_000_000);
}

#[test]
fn missing_clip_is_an_error() {
    let mut node = SampleNode::new(&one_joint(), second());
    node.clip = None;
    node.seek = 5;
    assert_eq!(node.advance(10), Err(SampleError::MissingClip));
    assert_eq!(node.seek, 5);
}

#[test]
fn zero_duration_is_an_error() {
    let mut node =
        SampleNode::new(&one_joint(), AnimationClip { id: 0, duration: 0, track_count: 1 });
    assert_eq!(node.advance(10), Err(SampleError::ZeroDuration));
    assert_eq!(node.seek, 0);
}

#[test]
fn update_takes_a_duration() {
    let mut node = SampleNode::new(&one_joint(), second());
    node.looping = true;
    assert_eq!(
        node.update(Duration::from_millis(600)),
        Ok(Playhead { clip: 7, seek: 600_000_000, duration: 1_000_000_000 })
    );
    assert_eq!(node.update(Duration::from_millis(600)).unwrap().seek, 200_000_000);
    assert_eq!(node.update(Duration::new(3, 5)).unwrap().seek, 200_000_005);
}

#[test]
fn update_refuses_a_step_beyond_64_bits() {
    let mut node = SampleNode::new(&one_joint(), second());
    node.seek = 3;
    assert_eq!(node.update(Duration::from_secs(u64::MAX)), Err(SampleError::StepTooLong));
    assert_eq!(node.seek, 3);
}

#[test]
fn looping_backwards_wraps_below_the_end() {
    let mut node = SampleNode::new(&one_joint(), second());
    node.looping = true;
    node.speed = -SPEED_ONE;
    node.seek = 100_000_000;
    assert_eq!(node.advance(300_000_000).unwrap().seek, 800_000_000);
    assert_eq!(node.advance(800_000_000).unwrap().seek, 0);
    assert_eq!(node.advance(1).unwrap().seek, 999_999_999);
    assert_eq!(node.advance(2_000_000_000).unwrap().seek, 999_999_999);
    node.speed = i32::MIN;
    let r = node.advance(u64::MAX).unwrap();
    assert!(r.seek < r.duration);
}

#[test]
fn one_shot_backwards_starts_over_at_the_start() {
    let mut node = SampleNode::new(&one_joint(), second());
    node.speed = -SPEED_ONE / 2;
    node.seek = 100_000_000;
    assert_eq!(node.advance(100_000_000).unwrap().seek, 50_000_000);
    assert_eq!(node.advance(100_000_001).unwrap().seek, 0);
    assert_eq!(node.advance(100_000_000).unwrap().seek, 0);
}
