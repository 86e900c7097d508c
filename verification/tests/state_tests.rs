use particle_tracker::filter::{Resampling, UpdateStatus};
use particle_tracker::geometry::{Point, POSITION_UNIT};
use particle_tracker::measurement::SCORE_UNIT;
use particle_tracker::sampling::WEIGHT_UNIT;
use particle_tracker::state::animal::Animal;
use particle_tracker::state::config::{CmdInput, Config, ConfigError, StartBox};
use particle_tracker::state::State;
use particle_tracker::tracker::AnimalTracker;
use rand::distributions::{Distribution, Normal};

fn erfc_likelihood(z: u64) -> u64 {
    let x = z as f64 / SCORE_UNIT as f64;
    let w = 1.0 - statrs::function::erf::erf(x * std::f64::consts::FRAC_1_SQRT_2);
    (w * WEIGHT_UNIT as f64) as u64
}

fn gaussian(stddev: u32) -> i32 {
    Normal::new(0.0, stddev as f64).sample(&mut rand::thread_rng()) as i32
}

fn config_of(particle_count: usize, stddev: u32, h_range: std::ops::Range<i32>) -> Config {
    Config {
        particle_count,
        particle_color: [1, 2, 3, 4],
        stddev,
        noise: 77,
        init_box: StartBox { h_range, v_range: -5..5 },
        animals_pos: vec![([10, 20], [1, 1, 1]), ([30, 40], [2, 2, 2]), ([50, 60], [3, 3, 3])],
    }
}

#[test]
fn cmd_input_holds_the_file_name() {
    let input = CmdInput { setup_config: String::from("default.json") };
    assert_eq!(input.setup_config, "default.json");
    assert_eq!(input.clone().setup_config, "default.json");
}

#[test]
fn default_config_values() {
    let config = Config::default();
    assert_eq!(config.particle_count, 500);
    assert_eq!(config.particle_color, [255, 0, 0, 77]);
    assert_eq!(config.stddev, 500_000);
    assert_eq!(config.noise, 200_000);
    assert_eq!(config.init_box.h_range, -10_000_000..10_000_000);
    assert_eq!(config.init_box.v_range, -10_000_000..10_000_000);
    assert_eq!(config.animals_pos, vec![([0, 0], [255, 255, 255])]);
    assert_eq!(config.stddev as i32, POSITION_UNIT / 2);
    assert_eq!(config.noise as i32, POSITION_UNIT / 5);
    assert_eq!(config.validate(), Ok(()));
}

#[test]
fn validate_names_the_first_fault() {
    assert_eq!(config_of(0, 1, 0..1).validate(), Err(ConfigError::NoParticles));
    assert_eq!(config_of(0, 0, 1..1).validate(), Err(ConfigError::NoParticles));
    assert_eq!(config_of(1, 1, 1..1).validate(), Err(ConfigError::EmptyRegion));
    assert_eq!(config_of(1, 0, 3..1).validate(), Err(ConfigError::EmptyRegion));
    assert_eq!(config_of(1, 0, 0..1).validate(), Err(ConfigError::ZeroDeviation));
    assert_eq!(config_of(1, 1, 0..1).validate(), Ok(()));
}

#[test]
fn validate_looks_at_the_vertical_range_too() {
    let mut config = config_of(1, 1, 0..1);
    config.init_box.v_range = 4..4;
    assert_eq!(config.validate(), Err(ConfigError::EmptyRegion));
}

#[test]
fn animal_new_keeps_its_arguments() {
    let animal = Animal::new(Point::new(3, -4), 55, [9, 8, 7]);
    assert_eq!(animal.position, Point::new(3, -4));
    assert_eq!(animal.signal_stddev, 55);
    assert_eq!(animal.color, [9, 8, 7]);
}

#[test]
fn state_starts_with_a_tracker_for_every_target() {
    let state = State::new(&config_of(25, 9, -100..100)).unwrap();
    assert_eq!(state.drone_pos, Point::new(0, 0));
    assert_eq!(state.animals.len(), 3);
    assert_eq!(state.trackers.len(), 3);
    assert_eq!(state.animals[1].position, Point::new(30, 40));
    assert_eq!(state.animals[1].color, [2, 2, 2]);
    assert_eq!(state.animals[2].signal_stddev, 9);
    for (i, (tracker, id)) in state.trackers.iter().enumerate() {
        assert_eq!(*id, i);
        assert_eq!(tracker.noise, 77);
        assert_eq!(tracker.filter.get_particles().len(), 25);
        assert_eq!(tracker.est_pos, tracker.filter.guess_position());
        for p in tracker.filter.get_particles() {
            assert!(-100 <= p.x && p.x < 100);
            assert!(-5 <= p.y && p.y < 5);
        }
    }
    assert!(state.is_wf());
}

#[test]
fn state_from_the_default_config() {
    let state = State::new(&Config::default()).unwrap();
    assert_eq!(state.animals.len(), 1);
    assert_eq!(state.animals[0].position, Point::new(0, 0));
    assert_eq!(state.animals[0].signal_stddev, 500_000);
    assert_eq!(state.trackers.len(), 1);
    assert_eq!(state.trackers[0].0.filter.get_particles().len(), 500);
}

#[test]
fn state_without_targets_has_no_trackers() {
    let mut config = config_of(25, 9, -100..100);
    config.animals_pos.clear();
    let mut state = State::new(&config).unwrap();
    assert!(state.trackers.is_empty());
    assert!(state.animals.is_empty());
    assert!(state.is_wf());
    assert!(state.update(1, &erfc_likelihood, &gaussian).is_empty());
}

#[test]
fn state_refuses_a_faulty_config() {
    assert_eq!(State::new(&config_of(0, 9, -100..100)).err(), Some(ConfigError::NoParticles));
    assert_eq!(State::new(&config_of(5, 9, 100..100)).err(), Some(ConfigError::EmptyRegion));
    assert_eq!(State::new(&config_of(5, 0, -100..100)).err(), Some(ConfigError::ZeroDeviation));
}

#[test]
fn is_wf_sees_a_tracker_without_target() {
    let mut state = State::new(&config_of(5, 9, -100..100)).unwrap();
    state.trackers[1].1 = 3;
    assert!(!state.is_wf());
    state.trackers[1].1 = 2;
    assert!(state.is_wf());
}

#[test]
fn is_wf_sees_a_policy_that_does_not_fit() {
    let mut state = State::new(&config_of(5, 9, -100..100)).unwrap();
    state.trackers[0].0.resampling = Resampling::Truncate { survivors: 5 };
    assert!(state.is_wf());
    state.trackers[0].0.resampling = Resampling::Truncate { survivors: 6 };
    assert!(!state.is_wf());
    state.trackers[0].0.resampling = Resampling::Truncate { survivors: 0 };
    assert!(!state.is_wf());
}

#[test]
fn update_follows_the_policy_of_every_tracker() {
    let mut state = State::new(&config_of(4, 1, -100..100)).unwrap();
    state.trackers.truncate(2);
    let mut next = 0;
    for (tracker, _) in state.trackers.iter_mut() {
        let n = std::cell::Cell::new(next);
        tracker.filter.reset(|| {
            n.set(n.get() + 1);
            Point::new(0, n.get())
        });
        next = 0;
    }
    state.trackers[1].0.resampling = Resampling::Truncate { survivors: 1 };
    state.animals[0].position = Point::new(0, 2);
    state.animals[1].position = Point::new(0, 3);
    let only_exact = |z: u64| -> u64 { if z == 0 { 1 } else { 0 } };
    let statuses = state.update(0, &only_exact, &|_: u32| -> i32 { 0 });
    assert_eq!(statuses, vec![UpdateStatus::Weighted; 2]);
    assert_eq!(state.trackers[0].0.filter.get_particles(), &[Point::new(0, 2); 4]);
    assert_eq!(state.trackers[1].0.filter.get_particles(), &[Point::new(0, 3); 4]);
    assert_eq!(state.trackers[0].0.resampling, Resampling::Weighted);
    assert_eq!(state.trackers[1].0.resampling, Resampling::Truncate { survivors: 1 });
}

#[test]
fn is_wf_sees_a_target_without_noise() {
    let mut state = State::new(&config_of(5, 9, -100..100)).unwrap();
    state.animals[2].signal_stddev = 0;
    assert!(!state.is_wf());
}

#[test]
fn update_reports_every_tracker() {
    let mut state = State::new(&config_of(50, 9, -100..100)).unwrap();
    state.drone_pos = Point::new(7, 7);
    let statuses = state.update(250_000, &|_: u64| -> u64 { 1 }, &|_: u32| -> i32 { 0 });
    assert_eq!(statuses, vec![UpdateStatus::Weighted; 3]);
    assert_eq!(state.drone_pos, Point::new(7, 7));
    assert_eq!(state.animals.len(), 3);
    assert_eq!(state.animals[0].position, Point::new(10, 20));
    for (i, (tracker, id)) in state.trackers.iter().enumerate() {
        assert_eq!(*id, i);
        assert_eq!(tracker.filter.get_particles().len(), 50);
        assert_eq!(tracker.est_pos, tracker.filter.guess_position());
    }
}

#[test]
fn update_reports_degenerate_trackers_one_by_one() {
    let mut state = State::new(&config_of(4, 1, -100..100)).unwrap();
    for (tracker, _) in state.trackers.iter_mut() {
        tracker.filter.reset(|| Point::new(0, 0));
    }
    state.animals[0].position = Point::new(0, 3);
    state.animals[1].position = Point::new(0, 0);
    state.animals[2].position = Point::new(4, 0);
    let only_exact = |z: u64| -> u64 { if z == 0 { 1 } else { 0 } };
    let statuses = state.update(0, &only_exact, &|_: u32| -> i32 { 0 });
    assert_eq!(
        statuses,
        vec![UpdateStatus::Degenerate, UpdateStatus::Weighted, UpdateStatus::Degenerate]
    );
    for (tracker, _) in state.trackers.iter() {
        assert_eq!(tracker.filter.get_particles(), &[Point::new(0, 0); 4]);
        assert_eq!(tracker.est_pos, Point::new(0, 0));
    }
}

#[test]
fn update_reads_the_target_that_the_tracker_names() {
    let mut state = State::new(&config_of(2, 1, -100..100)).unwrap();
    state.trackers.truncate(1);
    state.trackers[0].1 = 2;
    state.trackers[0].0.filter.reset(|| Point::new(0, 0));
    state.animals[2].position = Point::new(0, 0);
    let only_exact = |z: u64| -> u64 { if z == 0 { 1 } else { 0 } };
    let statuses = state.update(0, &only_exact, &|_: u32| -> i32 { 0 });
    assert_eq!(statuses, vec![UpdateStatus::Weighted]);
    state.trackers[0].1 = 0;
    let statuses = state.update(0, &only_exact, &|_: u32| -> i32 { 0 });
    assert_eq!(statuses, vec![UpdateStatus::Degenerate]);
}

#[test]
fn ticks_with_real_noise_keep_every_tracker_whole() {
    let mut state = State::new(&Config::default()).unwrap();
    state.animals.push(Animal::new(Point::new(3 * POSITION_UNIT, -POSITION_UNIT), 100_000, [0, 255, 0]));
    state
        .trackers
        .push((AnimalTracker::new(300, -10_000_000..10_000_000, -10_000_000..10_000_000, 200_000).unwrap(), 1));
    assert!(state.is_wf());
    for tick in 0..10 {
        state.drone_pos = Point::new(tick * POSITION_UNIT, 0);
        let statuses = state.update(250_000, &erfc_likelihood, &gaussian);
        assert_eq!(statuses.len(), 2);
        assert_eq!(state.trackers[0].0.filter.get_particles().len(), 500);
        assert_eq!(state.trackers[1].0.filter.get_particles().len(), 300);
    }
}
