//! The flocking rules in single precision, run through the library's tick.

use boids::flock::{Agent, Flock};

type V2 = (f32, f32);

#[derive(Clone, Copy)]
struct Nudge {
    threshold: f32,
    factor: f32,
}

#[derive(Clone, Copy)]
struct Tuning {
    cohesion_gain: f32,
    align_gain: f32,
    avoid_gain: f32,
    align_radius: f32,
    avoid_radius: f32,
    bounds_divisor: f32,
    ceiling: Option<Nudge>,
    floor: Option<Nudge>,
}

const CLASSIC: Tuning = Tuning {
    cohesion_gain: 0.05,
    align_gain: 0.1,
    avoid_gain: 40.0,
    align_radius: 150.0,
    avoid_radius: 50.0,
    bounds_divisor: 5000.0,
    ceiling: Some(Nudge { threshold: 100.0, factor: 0.99 }),
    floor: Some(Nudge { threshold: 30.0, factor: 1.1 }),
};

/// No influence at all: every gain is zero, the pull to the origin is
/// switched off by an infinite divisor, and the regulator is disabled.
const INERT: Tuning = Tuning {
    cohesion_gain: 0.0,
    align_gain: 0.0,
    avoid_gain: 0.0,
    align_radius: 150.0,
    avoid_radius: 50.0,
    bounds_divisor: f32::INFINITY,
    ceiling: None,
    floor: None,
};

fn plus(a: V2, b: V2) -> V2 {
    (a.0 + b.0, a.1 + b.1)
}

fn minus(a: V2, b: V2) -> V2 {
    (a.0 - b.0, a.1 - b.1)
}

fn times(a: V2, k: f32) -> V2 {
    (a.0 * k, a.1 * k)
}

fn over(a: V2, k: f32) -> V2 {
    (a.0 / k, a.1 / k)
}

fn dot(a: V2, b: V2) -> f32 {
    a.0 * b.0 + a.1 * b.1
}

fn norm(a: V2) -> f32 {
    dot(a, a).sqrt()
}

fn distance(own: &Agent<V2>, other: &Agent<V2>) -> f32 {
    norm(minus(other.position, own.position))
}

fn cohesion(flock: &Flock<V2>, me: usize, elapsed: f32, tuning: &Tuning) -> V2 {
    let all = flock.agents();
    let mut sum = (0.0, 0.0);
    for a in all {
        sum = plus(sum, a.position);
    }
    let centroid = over(sum, flock.headcount().agents as f32);
    times(times(minus(centroid, all[me].position), elapsed), tuning.cohesion_gain)
}

fn alignment(flock: &Flock<V2>, me: usize, elapsed: f32, tuning: &Tuning) -> V2 {
    let all = flock.agents();
    let nearby = flock.neighbours_of(me, |own: &Agent<V2>, other: &Agent<V2>| {
        distance(own, other) < tuning.align_radius
    });
    let mut sum = (0.0, 0.0);
    for other in nearby {
        sum = plus(sum, all[other].velocity);
    }
    let pull = over(minus(sum, all[me].velocity), flock.headcount().others as f32);
    times(times(pull, elapsed), tuning.align_gain)
}

fn avoidance(flock: &Flock<V2>, me: usize, elapsed: f32, tuning: &Tuning) -> V2 {
    let all = flock.agents();
    let too_close = flock.neighbours_of(me, |own: &Agent<V2>, other: &Agent<V2>| {
        let d = distance(own, other);
        0.0 < d && d < tuning.avoid_radius
    });
    let mut direction = (0.0, 0.0);
    for other in too_close {
        let offset = minus(all[other].position, all[me].position);
        direction = minus(direction, times(offset, 1.0 / norm(offset)));
    }
    times(times(direction, elapsed), tuning.avoid_gain)
}

fn regulate(mut velocity: V2, tuning: &Tuning) -> V2 {
    if let Some(nudge) = tuning.ceiling {
        if norm(velocity) > nudge.threshold {
            velocity = times(velocity, nudge.factor);
        }
    }
    if let Some(nudge) = tuning.floor {
        if norm(velocity) < nudge.threshold {
            velocity = times(velocity, nudge.factor);
        }
    }
    velocity
}

fn steer(flock: &Flock<V2>, me: usize, elapsed: f32, tuning: &Tuning) -> V2 {
    let own = &flock.agents()[me];
    let mut velocity = own.velocity;
    velocity = plus(velocity, cohesion(flock, me, elapsed, tuning));
    velocity = plus(velocity, alignment(flock, me, elapsed, tuning));
    velocity = plus(velocity, avoidance(flock, me, elapsed, tuning));
    velocity = minus(velocity, over(own.position, tuning.bounds_divisor));
    regulate(velocity, tuning)
}

fn advance(agent: &Agent<V2>, elapsed: f32) -> V2 {
    plus(agent.position, times(agent.velocity, elapsed))
}

fn tick(flock: &mut Flock<V2>, elapsed: f32, tuning: &Tuning) {
    let outcome = flock.tick(
        elapsed < 0.0,
        |before: &Flock<V2>, me: usize| steer(before, me, elapsed, tuning),
        |agent: &Agent<V2>| advance(agent, elapsed),
    );
    assert!(outcome.is_ok());
}

fn flock_at(states: &[(V2, V2)]) -> Flock<V2> {
    let agents = states.iter().map(|&(position, velocity)| Agent { position, velocity }).collect();
    match Flock::new(agents) {
        Ok(flock) => flock,
        Err(_) => panic!("the flock was refused"),
    }
}

fn scattered(count: usize) -> Flock<V2> {
    // A fixed pseudo-random scatter within the square of side 2000.
    let mut seed: u32 = 12345;
    let mut next = move || {
        seed = seed.wrapping_mul(1_664_525).wrapping_add(1_013_904_223);
        (seed >> 8) as f32 / (1u32 << 24) as f32 * 2000.0 - 1000.0
    };
    let states: Vec<(V2, V2)> =
        (0..count).map(|_| ((next(), next()), (next(), next()))).collect();
    flock_at(&states)
}

#[test]
fn zero_elapsed_time_keeps_every_position() {
    let mut flock = scattered(15);
    let before: Vec<V2> = flock.agents().iter().map(|a| a.position).collect();
    tick(&mut flock, 0.0, &CLASSIC);
    let after: Vec<V2> = flock.agents().iter().map(|a| a.position).collect();
    assert_eq!(before, after);
}

#[test]
fn zero_elapsed_time_still_pulls_to_the_origin() {
    let mut tuning = CLASSIC;
    tuning.ceiling = None;
    tuning.floor = None;
    let mut flock = flock_at(&[((500.0, -250.0), (40.0, 40.0)), ((-100.0, 0.0), (0.0, 50.0))]);
    tick(&mut flock, 0.0, &tuning);
    let all = flock.agents();
    assert_eq!(all[0].velocity, (40.0 - 500.0 / 5000.0, 40.0 + 250.0 / 5000.0));
    assert_eq!(all[1].velocity, (0.0 + 100.0 / 5000.0, 50.0));
}

#[test]
fn zero_elapsed_time_with_inert_tuning_changes_nothing() {
    let states = [((3.0, 4.0), (1.0, -1.0)), ((-7.0, 2.0), (0.5, 0.25)), ((0.0, 0.0), (9.0, 9.0))];
    let mut flock = flock_at(&states);
    tick(&mut flock, 0.0, &INERT);
    for (agent, state) in flock.agents().iter().zip(states.iter()) {
        assert_eq!(agent.position, state.0);
        assert_eq!(agent.velocity, state.1);
    }
}

#[test]
fn position_moves_by_velocity_times_elapsed() {
    let mut flock = flock_at(&[((1.0, 2.0), (10.0, -20.0)), ((500.0, 500.0), (-4.0, 8.0))]);
    tick(&mut flock, 0.5, &INERT);
    let all = flock.agents();
    assert_eq!(all[0].position, (6.0, -8.0));
    assert_eq!(all[0].velocity, (10.0, -20.0));
    assert_eq!(all[1].position, (498.0, 504.0));
    assert_eq!(all[1].velocity, (-4.0, 8.0));
}

#[test]
fn position_update_is_the_same_whoever_else_is_there() {
    let lone = ((1.0, 2.0), (10.0, -20.0));
    let mut small = flock_at(&[lone, ((500.0, 500.0), (-4.0, 8.0))]);
    let mut large = flock_at(&[
        lone,
        ((-900.0, 20.0), (3.0, 3.0)),
        ((640.0, -333.0), (-70.0, 1.0)),
        ((2.0, 1.0), (0.0, 0.0)),
    ]);
    small.update_positions(|a: &Agent<V2>| advance(a, 0.016));
    large.update_positions(|a: &Agent<V2>| advance(a, 0.016));
    assert_eq!(small.agents()[0].position, large.agents()[0].position);
    assert_eq!(small.agents()[0].position, plus(lone.0, times(lone.1, 0.016)));
}

#[test]
fn close_agents_push_each_other_away() {
    let mut tuning = INERT;
    tuning.avoid_gain = 40.0;
    let flock = flock_at(&[((0.0, 0.0), (0.0, 0.0)), ((30.0, 0.0), (0.0, 0.0))]);
    let on_first = avoidance(&flock, 0, 1.0, &tuning);
    let on_second = avoidance(&flock, 1, 1.0, &tuning);
    assert_eq!(on_first, (-40.0, 0.0));
    assert_eq!(on_second, (40.0, 0.0));
    let all = flock.agents();
    assert!(dot(on_first, minus(all[0].position, all[1].position)) > 0.0);
    assert!(dot(on_second, minus(all[1].position, all[0].position)) > 0.0);
}

#[test]
fn distant_agents_do_not_push() {
    let mut tuning = INERT;
    tuning.avoid_gain = 40.0;
    let flock = flock_at(&[((0.0, 0.0), (0.0, 0.0)), ((50.0, 0.0), (0.0, 0.0))]);
    assert_eq!(avoidance(&flock, 0, 1.0, &tuning), (0.0, 0.0));
    assert_eq!(avoidance(&flock, 1, 1.0, &tuning), (0.0, 0.0));
}

#[test]
fn coincident_agents_do_not_push() {
    let mut tuning = INERT;
    tuning.avoid_gain = 40.0;
    let mut flock = flock_at(&[((5.0, 5.0), (1.0, 0.0)), ((5.0, 5.0), (0.0, 1.0))]);
    tick(&mut flock, 1.0, &tuning);
    let all = flock.agents();
    assert_eq!(all[0].velocity, (1.0, 0.0));
    assert_eq!(all[1].velocity, (0.0, 1.0));
    assert!(all.iter().all(|a| a.position.0.is_finite() && a.position.1.is_finite()));
}

#[test]
fn cohesion_pulls_towards_the_centroid() {
    let mut tuning = INERT;
    tuning.cohesion_gain = 0.05;
    let mut flock = flock_at(&[
        ((-300.0, 0.0), (0.0, 0.0)),
        ((100.0, 0.0), (0.0, 0.0)),
        ((200.0, 0.0), (0.0, 0.0)),
    ]);
    // The centroid is the origin.
    tick(&mut flock, 1.0, &tuning);
    let all = flock.agents();
    assert_eq!(all[0].velocity, (15.0, 0.0));
    assert_eq!(all[1].velocity, (-5.0, 0.0));
    assert_eq!(all[2].velocity, (-10.0, 0.0));
}

#[test]
fn alignment_divides_by_the_flock_size_less_one() {
    let mut tuning = INERT;
    tuning.align_gain = 0.1;
    let mut flock = flock_at(&[
        ((0.0, 0.0), (10.0, 0.0)),
        ((100.0, 0.0), (40.0, 0.0)),
        ((5000.0, 0.0), (-1000.0, 0.0)),
    ]);
    tick(&mut flock, 1.0, &tuning);
    let all = flock.agents();
    // One neighbour each for the first two, none for the third; the divisor
    // is two for all of them.
    assert_eq!(all[0].velocity, (10.0 + (40.0 - 10.0) / 2.0 * 0.1, 0.0));
    assert_eq!(all[1].velocity, (40.0 + (10.0 - 40.0) / 2.0 * 0.1, 0.0));
    assert_eq!(all[2].velocity, (-1000.0 + (0.0 + 1000.0) / 2.0 * 0.1, 0.0));
}

#[test]
fn regulator_nudges_and_does_not_clamp() {
    let mut tuning = INERT;
    tuning.ceiling = Some(Nudge { threshold: 100.0, factor: 0.99 });
    tuning.floor = Some(Nudge { threshold: 30.0, factor: 1.1 });
    assert_eq!(regulate((200.0, 0.0), &tuning), (198.0, 0.0));
    assert_eq!(regulate((0.0, -10.0), &tuning), (0.0, -11.0));
    assert_eq!(regulate((60.0, 0.0), &tuning), (60.0, 0.0));
    tuning.floor = None;
    assert_eq!(regulate((0.0, -10.0), &tuning), (0.0, -10.0));
    assert_eq!(regulate((200.0, 0.0), &tuning), (198.0, 0.0));
    tuning.ceiling = None;
    assert_eq!(regulate((200.0, 0.0), &tuning), (200.0, 0.0));
}

#[test]
fn speeds_stay_bounded_over_ten_thousand_ticks() {
    let mut flock = scattered(15);
    let mut fastest: f32 = 0.0;
    for _ in 0..10_000 {
        tick(&mut flock, 0.016, &CLASSIC);
        for agent in flock.agents() {
            let speed = norm(agent.velocity);
            assert!(speed.is_finite());
            assert!(agent.position.0.is_finite() && agent.position.1.is_finite());
            fastest = fastest.max(speed);
        }
    }
    assert!(fastest < 3000.0);
    for agent in flock.agents() {
        assert!(norm(agent.velocity) < 1000.0);
    }
}
