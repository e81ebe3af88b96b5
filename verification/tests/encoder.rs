use servo4257::motion::encoder::{electrical_angle, offset_from_alignment};

#[test]
fn aligned_reads_zero() {
    for enc in (0..=65535u32).step_by(257) {
        let e = enc as u16;
        let off = offset_from_alignment(e);
        assert_eq!(electrical_angle(e, off), 0);
    }
}
