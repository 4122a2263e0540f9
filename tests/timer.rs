use game::timer::Timer;

#[test]
fn repeating_timer_fires_once_every_twenty_ticks() {
    let mut t = Timer::new(2000, true);
    let mut fired_at = Vec::new();
    for tick in 1..=100u32 {
        t.tick(100);
        if t.just_finished() {
            fired_at.push(tick);
        }
    }
    assert_eq!(fired_at, vec![20, 40, 60, 80, 100]);
}

#[test]
fn repeating_timer_keeps_the_remainder() {
    let mut t = Timer::new(1000, true);
    t.tick(700);
    assert!(!t.just_finished());
    t.tick(700);
    assert!(t.just_finished());
    assert_eq!(t.elapsed(), 400);
}

#[test]
fn one_shot_timer_halts_at_duration() {
    let mut t = Timer::new(500, false);
    t.tick(600);
    assert!(t.just_finished());
    assert!(t.finished());
    assert_eq!(t.elapsed(), 500);
    t.tick(600);
    assert!(!t.just_finished());
    assert!(t.finished());
    assert_eq!(t.elapsed(), 500);
}

#[test]
fn paused_timer_does_not_advance() {
    let mut t = Timer::new(1000, true);
    t.pause();
    t.tick(5000);
    assert!(!t.just_finished());
    assert_eq!(t.elapsed(), 0);
    t.unpause();
    t.tick(1000);
    assert!(t.just_finished());
}

#[test]
fn reset_zeroes_elapsed_and_keeps_pause() {
    let mut t = Timer::new(1000, true);
    t.tick(300);
    t.pause();
    t.reset();
    assert_eq!(t.elapsed(), 0);
    assert!(t.paused());
    assert_eq!(t.duration(), 1000);
}
