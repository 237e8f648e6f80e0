use bridge::stage::{bridge_step, stream_step, StagePoll, StepVerdict};

#[test]
fn stream_stage_follows_its_upstream() {
    assert!(matches!(
        stream_step::<u32, ()>(Ok(StagePoll::Item(7))),
        StepVerdict::Yield(7)
    ));
    assert!(matches!(
        stream_step::<u32, ()>(Ok(StagePoll::Pending)),
        StepVerdict::Suspend
    ));
    assert!(matches!(
        stream_step::<u32, ()>(Ok(StagePoll::Finished)),
        StepVerdict::End
    ));
    assert!(matches!(
        stream_step::<u32, u8>(Err(3)),
        StepVerdict::Fail(3)
    ));
}

#[test]
fn bridge_stage_goes_on_without_input() {
    assert!(matches!(
        bridge_step::<u32, ()>(Ok(StagePoll::Item(7))),
        StepVerdict::Yield(7)
    ));
    assert!(matches!(
        bridge_step::<u32, ()>(Ok(StagePoll::Pending)),
        StepVerdict::Skip
    ));
    assert!(matches!(
        bridge_step::<u32, ()>(Ok(StagePoll::Finished)),
        StepVerdict::End
    ));
    assert!(matches!(
        bridge_step::<u32, u8>(Err(3)),
        StepVerdict::Fail(3)
    ));
}
