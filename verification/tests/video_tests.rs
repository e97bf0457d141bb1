use horn_shunck_rs::video::flow_frame_pairs;

#[test]
fn frame_pairs_link_consecutive_frames() {
    assert_eq!(flow_frame_pairs(1), vec![]);
    assert_eq!(flow_frame_pairs(2), vec![(0, 1)]);
    assert_eq!(flow_frame_pairs(4), vec![(0, 1), (1, 2), (2, 3)]);
}
