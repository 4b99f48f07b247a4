use mr_binaer::game::snowman_states::SnowmanStates;

const DURATION: i32 = 120;

fn after(state: SnowmanStates) -> SnowmanStates {
    state.advance(1000, DURATION)
}

#[test]
fn waving_ends_in_idle_after_the_duration() {
    let state = SnowmanStates::Waving(10);
    assert_eq!(state.advance(129, 120), SnowmanStates::Waving(10));
    assert_eq!(state.advance(130, 120), SnowmanStates::Idle);
    assert_eq!(state.advance(500, 120), SnowmanStates::Idle);
}

#[test]
fn animations_that_end_in_idle() {
    assert_eq!(after(SnowmanStates::Waving(0)), SnowmanStates::Idle);
    assert_eq!(after(SnowmanStates::Jumping(0)), SnowmanStates::Idle);
    assert_eq!(after(SnowmanStates::PutTopHatBackOn(0)), SnowmanStates::Idle);
    assert_eq!(after(SnowmanStates::ResurrectionInProgress(0)), SnowmanStates::Idle);
    assert_eq!(
        after(SnowmanStates::ReverseDeformationToAvoidPoint(3, 4, 0)),
        SnowmanStates::Idle
    );
    assert_eq!(after(SnowmanStates::MorphingFromAFirTree(0)), SnowmanStates::Idle);
}

#[test]
fn animations_that_end_in_a_state_of_their_own() {
    assert_eq!(after(SnowmanStates::TakingTopHat(0)), SnowmanStates::HoldingTopHat());
    assert_eq!(after(SnowmanStates::Melting(0)), SnowmanStates::Melted);
    assert_eq!(after(SnowmanStates::MorphingIntoAFirTree(0)), SnowmanStates::IsFirTree());
    assert_eq!(
        after(SnowmanStates::DeformationToAvoidPoint(3, 4, 0)),
        SnowmanStates::IsDeformedToAvoidPoint(3, 4)
    );
}

#[test]
fn growing_and_shrinking_end_big_with_their_multiplier() {
    assert_eq!(after(SnowmanStates::Growing(1500, 0)), SnowmanStates::Big(1500));
    assert_eq!(after(SnowmanStates::Shrinking(500, 0)), SnowmanStates::Big(500));
    assert_eq!(after(SnowmanStates::Big(1500)), SnowmanStates::Big(1500));
}

#[test]
fn animations_run_until_the_duration_has_elapsed() {
    let running = [
        SnowmanStates::Waving(5),
        SnowmanStates::Jumping(5),
        SnowmanStates::TakingTopHat(5),
        SnowmanStates::PutTopHatBackOn(5),
        SnowmanStates::Melting(5),
        SnowmanStates::ResurrectionInProgress(5),
        SnowmanStates::Shrinking(500, 5),
        SnowmanStates::Growing(1500, 5),
        SnowmanStates::MorphingIntoAFirTree(5),
        SnowmanStates::MorphingFromAFirTree(5),
        SnowmanStates::DeformationToAvoidPoint(1, 2, 5),
        SnowmanStates::ReverseDeformationToAvoidPoint(1, 2, 5),
    ];
    for state in running {
        assert_eq!(state.advance(5, DURATION), state);
        assert_eq!(state.advance(124, DURATION), state);
        assert_ne!(state.advance(125, DURATION), state);
        assert_eq!(state.has_run_out(124, DURATION), false);
        assert_eq!(state.has_run_out(125, DURATION), true);
        assert_eq!(state.started_at(), Some(5));
        assert_eq!(state.frames_since_start(125), 120);
    }
}

#[test]
fn states_at_rest_stay() {
    let resting = [
        SnowmanStates::Idle,
        SnowmanStates::Melted,
        SnowmanStates::HoldingTopHat(),
        SnowmanStates::Big(2000),
        SnowmanStates::IsFirTree(),
        SnowmanStates::IsDeformedToAvoidPoint(7, 9),
    ];
    for state in resting {
        assert_eq!(state.advance(0, DURATION), state);
        assert_eq!(state.advance(i32::MAX, DURATION), state);
        assert_eq!(state.advance(i32::MIN, 0), state);
        assert_eq!(state.started_at(), None);
        assert_eq!(state.has_run_out(i32::MAX, 0), false);
        assert_eq!(state.frames_since_start(77), 0);
    }
}

#[test]
fn advance_is_idempotent_once_an_animation_is_over() {
    let running = [
        SnowmanStates::Waving(5),
        SnowmanStates::TakingTopHat(5),
        SnowmanStates::Melting(5),
        SnowmanStates::Shrinking(500, 5),
        SnowmanStates::Growing(1500, 5),
        SnowmanStates::MorphingIntoAFirTree(5),
        SnowmanStates::MorphingFromAFirTree(5),
        SnowmanStates::DeformationToAvoidPoint(1, 2, 5),
    ];
    for state in running {
        let once = state.advance(200, DURATION);
        assert_eq!(once.advance(200, DURATION), once);
        assert_eq!(once.advance(201, DURATION), once);
        assert_eq!(once.advance(100_000, 1), once);
        let early = state.advance(50, DURATION);
        assert_eq!(early, state);
        assert_eq!(early.advance(50, DURATION), early);
    }
}

#[test]
fn elapsed_frames_do_not_overflow() {
    let state = SnowmanStates::Waving(i32::MIN);
    assert_eq!(state.frames_since_start(i32::MAX), 4_294_967_295);
    assert_eq!(state.advance(i32::MAX, i32::MAX), SnowmanStates::Idle);
    let late = SnowmanStates::Waving(i32::MAX);
    assert_eq!(late.frames_since_start(i32::MIN), -4_294_967_295);
    assert_eq!(late.advance(i32::MIN, DURATION), late);
    assert_eq!(late.advance(i32::MIN, i32::MIN), late);
}

#[test]
fn a_duration_of_zero_or_less_ends_an_animation_at_once() {
    assert_eq!(SnowmanStates::Melting(9).advance(9, 0), SnowmanStates::Melted);
    assert_eq!(SnowmanStates::Melting(9).advance(9, -3), SnowmanStates::Melted);
    assert_eq!(SnowmanStates::Melting(9).advance(5, -3), SnowmanStates::Melting(9));
    assert_eq!(SnowmanStates::Melting(9).advance(6, -3), SnowmanStates::Melted);
}
