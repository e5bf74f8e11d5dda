use sombervale::hud::{Hud, JeanStats};
use sombervale::power::{FrogPower, POWER_COOLDOWN};

#[test]
fn meter_fills_to_capacity() {
    let mut p = FrogPower::new(0);
    // raise capacity to 2 and empty the meter
    p.increase_xp();
    p.increase_xp();
    assert_eq!(p.max_pp(), 2);
    assert!(p.use_power(0));
    assert_eq!(p.pp(), 0);
    let mut t = 0;
    for _ in 0..2 {
        t += POWER_COOLDOWN;
        p.update(0, t);
    }
    assert_eq!(p.pp(), 2);
    t += POWER_COOLDOWN;
    p.update(0, t);
    assert_eq!(p.pp(), 2);
}

#[test]
fn meter_waits_for_cooldown_and_dependents() {
    let mut p = FrogPower::new(0);
    assert!(p.use_power(0));
    assert!(!p.use_power(0));
    p.update(0, POWER_COOLDOWN - 1);
    assert_eq!(p.pp(), 0);
    p.update(1, POWER_COOLDOWN);
    assert_eq!(p.pp(), 0);
    p.update(0, POWER_COOLDOWN);
    assert_eq!(p.pp(), 1);
}

#[test]
fn xp_levels_up_on_reaching_cap() {
    let mut p = FrogPower::new(0);
    assert_eq!((p.xp(), p.max_xp(), p.max_pp()), (0, 2, 1));
    p.increase_xp();
    assert_eq!((p.xp(), p.max_xp(), p.max_pp()), (1, 2, 1));
    p.increase_xp();
    assert_eq!((p.xp(), p.max_xp(), p.max_pp()), (0, 4, 2));
}

#[test]
fn leader_xp_raises_max_hp() {
    let mut h = Hud::new();
    for _ in 0..9 {
        h.increase_xp();
    }
    assert_eq!(h.jean.xp, 9);
    h.increase_xp();
    assert_eq!(h.jean.xp, 0);
    assert_eq!(h.jean.max_xp, 20);
    assert_eq!(h.jean.max_hp, 11);
    assert_eq!(h.jean.hp, 10);
    let s = JeanStats::new();
    assert_eq!(s.max_xp, 10);
}
