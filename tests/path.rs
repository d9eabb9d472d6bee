use rays::path::{Bounce, PathEnd, PathState};

fn run(bounce_depth: u32, bounces: &[Bounce]) -> PathState {
    let mut state = PathState::new(bounce_depth);
    for b in bounces {
        state = state.advance(*b);
    }
    state
}

#[test]
fn zero_bounce_depth_is_black_before_any_ray() {
    assert_eq!(PathState::new(0).end(), Some(PathEnd::Black));
    for b in [Bounce::Missed, Bounce::Absorbed, Bounce::Scattered] {
        assert_eq!(run(0, &[b]).end(), Some(PathEnd::Black));
    }
}

#[test]
fn a_ray_that_misses_sees_the_sky() {
    for depth in [1, 4, 500] {
        let state = PathState::new(depth);
        assert_eq!(state.end(), None);
        assert_eq!(state.advance(Bounce::Missed).end(), Some(PathEnd::Sky));
    }
}

#[test]
fn an_absorbed_ray_is_black() {
    assert_eq!(run(4, &[Bounce::Absorbed]).end(), Some(PathEnd::Black));
    assert_eq!(
        run(4, &[Bounce::Scattered, Bounce::Absorbed]).end(),
        Some(PathEnd::Black)
    );
}

#[test]
fn scattering_uses_up_the_bounce_depth() {
    let state = run(3, &[Bounce::Scattered, Bounce::Scattered]);
    assert_eq!(state, PathState::Tracing { remaining: 1 });
    assert_eq!(
        run(3, &[Bounce::Scattered, Bounce::Scattered, Bounce::Missed]).end(),
        Some(PathEnd::Sky)
    );
    assert_eq!(
        run(3, &[Bounce::Scattered, Bounce::Scattered, Bounce::Scattered]).end(),
        Some(PathEnd::Black)
    );
}

#[test]
fn an_ended_path_ignores_further_bounces() {
    let state = run(5, &[Bounce::Missed, Bounce::Scattered, Bounce::Absorbed]);
    assert_eq!(state.end(), Some(PathEnd::Sky));
}
