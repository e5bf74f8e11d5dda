use sombervale::control::{Controls, Direction, Key, Keys, Power, Walk};

#[test]
fn single_and_diagonal_keys() {
    let mut c = Controls::new();
    assert_eq!(c.walk(), Walk::NoInput);
    c.update(Key::W, true);
    assert_eq!(c.walk(), Walk::Walk(Direction::Up));
    c.update(Key::D, true);
    assert_eq!(c.walk(), Walk::Walk(Direction::UpRight));
    c.update(Key::W, false);
    assert_eq!(c.walk(), Walk::Walk(Direction::Right));
    c.update(Key::D, false);
    assert_eq!(c.walk(), Walk::NoInput);
}

#[test]
fn opposite_keys_cancel() {
    let mut c = Controls::new();
    c.update(Key::W, true);
    c.update(Key::S, true);
    assert_eq!(c.walk(), Walk::NoInput);
    c.update(Key::A, true);
    assert_eq!(c.walk(), Walk::Walk(Direction::Left));
}

#[test]
fn power_is_edge_triggered() {
    let mut c = Controls::new();
    assert_eq!(c.power(), Power::NoInput);
    c.update(Key::Space, true);
    assert_eq!(c.power(), Power::Use);
    assert_eq!(c.power(), Power::NoInput);
    c.update(Key::Tab, true);
    assert_eq!(c.power(), Power::Select);
}

#[test]
fn keys_record_state() {
    let mut k = Keys::new();
    k.update(Key::A, true);
    assert!(k.a && !k.d);
    k.update(Key::A, false);
    assert!(!k.a);
}
