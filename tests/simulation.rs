use script_particles::emission::EmissionQueue;
use script_particles::simulation::{ParticleWithTime, Particles};

#[derive(Clone, Debug, PartialEq)]
struct Particle {
    pos: [f32; 3],
    scale: f32,
}

fn particle(x: f32) -> Particle {
    Particle { pos: [x, 0.0, 0.0], scale: 1.0 }
}

/// One fixed tick of 1/64 s, in microseconds.
const TICK: u64 = 15_625;

/// Runs the update phase with `update` standing in for the script's entry
/// point; returns the number of calls made.
fn update_phase<F: Fn(u64, Particle) -> Option<Particle>>(particles: &mut Particles<Particle>, update: F) -> usize {
    let mut results = Vec::new();
    for i in 0..particles.len() {
        let t = particles.elapsed(i);
        results.push(update(t, particles.particle(i).clone()));
    }
    let calls = results.len();
    particles.apply_updates(results);
    calls
}

#[test]
fn queue_keeps_emission_order() {
    let mut q = EmissionQueue::new();
    assert!(q.is_empty());
    q.emit(particle(1.0));
    q.emit(particle(2.0));
    q.emit(particle(3.0));
    assert_eq!(q.len(), 3);
    let taken = q.take_all();
    assert_eq!(taken, vec![particle(1.0), particle(2.0), particle(3.0)]);
    assert!(q.is_empty());
    assert!(q.take_all().is_empty());
}

#[test]
fn new_list_is_empty_at_clock_zero() {
    let p: Particles<Particle> = Particles::new();
    assert_eq!(p.len(), 0);
    assert_eq!(p.clock(), 0);
    assert!(p.live().is_empty());
}

#[test]
fn drain_appends_each_emitted_particle_once_with_tick_clock() {
    let mut q = EmissionQueue::new();
    let mut p = Particles::new();
    q.emit(particle(1.0));
    p.drain_emitted(&mut q, 100);
    q.emit(particle(2.0));
    q.emit(particle(3.0));
    p.drain_emitted(&mut q, 250);
    assert!(q.is_empty());
    assert_eq!(p.clock(), 250);
    assert_eq!(
        p.live(),
        &vec![
            ParticleWithTime { start_time: 100, particle: particle(1.0) },
            ParticleWithTime { start_time: 250, particle: particle(2.0) },
            ParticleWithTime { start_time: 250, particle: particle(3.0) },
        ]
    );
    assert_eq!(p.elapsed(0), 150);
    assert_eq!(p.elapsed(1), 0);
}

#[test]
fn drain_of_empty_queue_only_moves_clock() {
    let mut q = EmissionQueue::new();
    let mut p = Particles::new();
    q.emit(particle(1.0));
    p.drain_emitted(&mut q, 10);
    p.drain_emitted(&mut q, 40);
    assert_eq!(p.len(), 1);
    assert_eq!(p.clock(), 40);
    assert_eq!(p.elapsed(0), 30);
}

#[test]
fn update_replaces_or_removes_each_record() {
    let mut q = EmissionQueue::new();
    let mut p = Particles::new();
    for x in [1.0, 2.0, 3.0, 4.0] {
        q.emit(particle(x));
    }
    p.drain_emitted(&mut q, 7);
    p.drain_emitted(&mut q, 9);
    p.apply_updates(vec![None, Some(particle(20.0)), None, Some(particle(40.0))]);
    assert_eq!(
        p.live(),
        &vec![
            ParticleWithTime { start_time: 7, particle: particle(20.0) },
            ParticleWithTime { start_time: 7, particle: particle(40.0) },
        ]
    );
    assert_eq!(p.clock(), 9);
    assert_eq!(p.elapsed(1), 2);
}

#[test]
fn update_returning_nothing_empties_the_list() {
    let mut q = EmissionQueue::new();
    let mut p = Particles::new();
    q.emit(particle(1.0));
    q.emit(particle(2.0));
    p.drain_emitted(&mut q, 1);
    p.apply_updates(vec![None, None]);
    assert_eq!(p.len(), 0);
}

#[test]
fn unbound_update_leaves_list_untouched() {
    let mut q = EmissionQueue::new();
    let mut p = Particles::new();
    for tick in 1..=10u64 {
        q.emit(particle(tick as f32));
        p.drain_emitted(&mut q, tick * TICK);
        // no update entry point: the update phase is skipped
    }
    assert_eq!(p.len(), 10);
    assert_eq!(p.live()[0], ParticleWithTime { start_time: TICK, particle: particle(1.0) });
    assert_eq!(p.elapsed(0), 9 * TICK);
}

#[test]
fn no_script_keeps_list_empty() {
    let mut q: EmissionQueue<Particle> = EmissionQueue::new();
    let mut p = Particles::new();
    for tick in 1..=1000u64 {
        // no add entry point and a fallback that spawns nothing
        p.drain_emitted(&mut q, tick * TICK);
        assert_eq!(p.len(), 0);
    }
}

#[test]
fn particle_vanishes_once_five_seconds_old() {
    let mut q = EmissionQueue::new();
    let mut p = Particles::new();
    q.emit(particle(0.0));
    p.drain_emitted(&mut q, 0);
    let update = |t: u64, old: Particle| if t < 5_000_000 { Some(Particle { pos: old.pos, scale: old.scale }) } else { None };
    assert_eq!(update_phase(&mut p, update), 1);
    let mut tick = 0u64;
    while p.len() == 1 {
        tick += 1;
        p.drain_emitted(&mut q, tick * TICK);
        let age = p.elapsed(0);
        update_phase(&mut p, update);
        if age < 5_000_000 {
            assert_eq!(p.len(), 1);
            assert_eq!(p.live()[0].particle, particle(0.0));
        }
    }
    assert_eq!(tick * TICK, 5_000_000);
    assert_eq!(tick, 320);
    assert_eq!(p.len(), 0);
}

#[test]
fn particles_emitted_during_update_wait_for_next_drain() {
    let mut q = EmissionQueue::new();
    let mut p = Particles::new();
    q.emit(particle(1.0));
    p.drain_emitted(&mut q, TICK);
    let mut results = Vec::new();
    for i in 0..p.len() {
        let current = p.particle(i).clone();
        q.emit(particle(current.pos[0] + 1.0));
        results.push(Some(current));
    }
    p.apply_updates(results);
    assert_eq!(p.len(), 1);
    assert_eq!(q.len(), 1);
    p.drain_emitted(&mut q, 2 * TICK);
    assert_eq!(p.live()[1], ParticleWithTime { start_time: 2 * TICK, particle: particle(2.0) });
}
