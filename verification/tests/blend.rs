use skeletal_anim::blend::{blend, shares, sum_weights, BlendError, BlendLayer, BlendNode, PoseLayer};
use skeletal_anim::skeleton::Skeleton;
use skeletal_anim::weight::WEIGHT_ONE;

fn two_joints() -> Skeleton {
    Skeleton::new(vec![None, Some(0)], vec!["a".to_string(), "b".to_string()]).unwrap()
}

fn mix(column: &Vec<([f32; 3], u32)>) -> [f32; 3] {
    let mut out = [0.0f32; 3];
    for (value, share) in column {
        let w = *share as f32 / 65536.0;
        for axis in 0..3 {
            out[axis] += value[axis] * w;
        }
    }
    out
}

fn wired(weights: &[u32]) -> BlendNode {
    let mut node = BlendNode::new(&two_joints());
    for (i, w) in weights.iter().enumerate() {
        let layer = node.set_input(10 + i, 2);
        node.set_weight(layer, *w);
    }
    node.set_output(5, 2);
    node
}

#[test]
fn blend_node_starts_empty() {
    let node = BlendNode::new(&two_joints());
    assert_eq!(node.joint_count, 2);
    assert!(node.layers.is_empty());
    assert_eq!(node.output, None);
    assert_eq!(node.update().unwrap_err(), BlendError::NoOutput);
}

#[test]
fn set_input_returns_the_layer_index() {
    let mut node = BlendNode::new(&two_joints());
    assert_eq!(node.set_input(10, 2), 0);
    assert_eq!(node.set_input(11, 2), 1);
    assert_eq!(node.layers[0], BlendLayer { input: 10, joint_count: 2, weight: WEIGHT_ONE });
    assert_eq!(node.layers[1], BlendLayer { input: 11, joint_count: 2, weight: WEIGHT_ONE });
}

#[test]
fn blend_without_output_or_layers_is_refused() {
    let mut node = BlendNode::new(&two_joints());
    node.set_input(10, 2);
    assert_eq!(node.update().unwrap_err(), BlendError::NoOutput);
    node.set_output(3, 2);
    assert!(node.update().is_ok());
    let mut bare = BlendNode::new(&two_joints());
    bare.set_output(3, 2);
    assert_eq!(bare.update().unwrap_err(), BlendError::NoLayers);
}

#[test]
fn blend_of_buffers_of_another_skeleton_is_refused() {
    let mut node = BlendNode::new(&two_joints());
    node.set_input(10, 2);
    node.set_input(11, 3);
    node.set_output(5, 2);
    assert_eq!(node.update().unwrap_err(), BlendError::JointCountMismatch);
    let mut node = BlendNode::new(&two_joints());
    node.set_input(10, 3);
    node.set_input(11, 3);
    node.set_output(5, 3);
    assert_eq!(node.update().unwrap_err(), BlendError::JointCountMismatch);
    let mut node = BlendNode::new(&two_joints());
    node.set_input(10, 2);
    node.set_output(5, 1);
    assert_eq!(node.update().unwrap_err(), BlendError::JointCountMismatch);
}

#[test]
fn set_weight_reaches_existing_layers_only() {
    let mut node = BlendNode::new(&two_joints());
    node.set_input(10, 2);
    assert!(node.set_weight(0, 3));
    assert!(!node.set_weight(1, 3));
    assert_eq!(node.layers, vec![BlendLayer { input: 10, joint_count: 2, weight: 3 }]);
}

#[test]
fn blend_job_normalises() {
    let job = wired(&[1, 1, 2]).update().unwrap();
    assert_eq!(job.inputs, vec![10, 11, 12]);
    assert_eq!(job.shares, vec![16384, 16384, 32768]);
    assert!(!job.pass_through);
    assert_eq!(job.output, 5);
}

#[test]
fn blend_job_is_scale_invariant() {
    assert_eq!(wired(&[1, 1]).update().unwrap().shares, wired(&[2, 2]).update().unwrap().shares);
    assert_eq!(
        wired(&[3, 7]).update().unwrap().shares,
        wired(&[3000, 7000]).update().unwrap().shares
    );
}

#[test]
fn blend_job_falls_back_to_layer_zero() {
    let job = wired(&[0, 0]).update().unwrap();
    assert!(job.pass_through);
    assert_eq!(job.shares, vec![WEIGHT_ONE, 0]);
}

#[test]
fn shares_add_up_to_one_less_rounding() {
    assert_eq!(shares(&vec![1, 1, 1]), vec![21845, 21845, 21845]);
    for weights in [vec![1u32, 1, 1], vec![5, 0, 9, 2], vec![u32::MAX, 1], vec![7], vec![0, 0, 0]] {
        let sum: u32 = shares(&weights).iter().sum();
        assert!(sum <= WEIGHT_ONE);
        assert!(sum as usize + weights.len() > WEIGHT_ONE as usize);
    }
    assert!(shares(&Vec::new()).is_empty());
}

#[test]
fn sum_weights_adds_all_layers() {
    assert_eq!(sum_weights(&vec![u32::MAX, u32::MAX, 2]), 2 * (u32::MAX as u128) + 2);
    assert_eq!(sum_weights(&Vec::new()), 0);
}

#[test]
fn single_layer_blend_is_the_layer() {
    let pose = vec![[1.5f32, -2.0, 0.25], [3.0, 4.0, 5.0]];
    let layers = vec![PoseLayer { transforms: pose.clone(), weight: 1 }];
    assert_eq!(blend(2, &layers, mix), Ok(pose));
}

#[test]
fn blend_of_two_equal_weights_is_the_mean() {
    let standing = vec![[0.0f32, 1.0, 0.0], [0.0, 2.0, 0.0]];
    let running = vec![[2.0f32, 1.0, 4.0], [1.0, 0.0, -2.0]];
    let layers = vec![
        PoseLayer { transforms: standing, weight: 32768 },
        PoseLayer { transforms: running, weight: 32768 },
    ];
    assert_eq!(blend(2, &layers, mix), Ok(vec![[1.0f32, 1.0, 2.0], [0.5, 1.0, -1.0]]));
}

#[test]
fn blend_is_scale_invariant() {
    let a = vec![[0.1f32, 0.2, 0.3], [7.0, 8.0, 9.0]];
    let b = vec![[1.1f32, -0.2, 3.3], [-7.0, 0.5, 2.0]];
    let ones = vec![
        PoseLayer { transforms: a.clone(), weight: 1 },
        PoseLayer { transforms: b.clone(), weight: 1 },
    ];
    let twos =
        vec![PoseLayer { transforms: a, weight: 2 }, PoseLayer { transforms: b, weight: 2 }];
    assert_eq!(blend(2, &ones, mix), blend(2, &twos, mix));
}

#[test]
fn blend_with_zero_weights_passes_layer_zero_through() {
    let a = vec![[0.1f32, 0.2, 0.3]];
    let b = vec![[9.0f32, 9.0, 9.0]];
    let layers = vec![
        PoseLayer { transforms: a.clone(), weight: 0 },
        PoseLayer { transforms: b, weight: 0 },
    ];
    assert_eq!(blend(1, &layers, |_: &Vec<([f32; 3], u32)>| [f32::NAN; 3]), Ok(a));
}

#[test]
fn blend_hands_the_kernel_columns_in_layer_order() {
    let layers = vec![
        PoseLayer { transforms: vec![10u64, 20], weight: 1 },
        PoseLayer { transforms: vec![30u64, 40], weight: 3 },
    ];
    let out = blend(2, &layers, |column: &Vec<(u64, u32)>| {
        assert_eq!(column.len(), 2);
        assert_eq!(column[0].1, 16384);
        assert_eq!(column[1].1, 49152);
        column[0].0 * 1000 + column[1].0
    });
    assert_eq!(out, Ok(vec![10_030, 20_040]));
}

#[test]
fn blend_of_mismatched_poses_is_refused() {
    let kernel = |column: &Vec<(u64, u32)>| column[0].0;
    let uneven = vec![
        PoseLayer { transforms: vec![10u64, 20], weight: 1 },
        PoseLayer { transforms: vec![30u64], weight: 3 },
    ];
    assert_eq!(blend(2, &uneven, kernel), Err(BlendError::JointCountMismatch));
    let wrong_skeleton = vec![
        PoseLayer { transforms: vec![10u64, 20], weight: 1 },
        PoseLayer { transforms: vec![30u64, 40], weight: 3 },
    ];
    assert_eq!(blend(3, &wrong_skeleton, kernel), Err(BlendError::JointCountMismatch));
    assert_eq!(blend(2, &Vec::<PoseLayer<u64>>::new(), kernel), Err(BlendError::NoLayers));
}
