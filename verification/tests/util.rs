use faisca::util::OnDropDefer;
use std::cell::Cell;

#[test]
fn take_hands_the_value_out_and_skips_the_cleanup() {
    let cleaned = Cell::new(0u32);
    let guard = OnDropDefer::new(41u32, |v| cleaned.set(cleaned.get() + v));
    assert_eq!(*guard.as_ref(), 41);
    assert_eq!(guard.take(), 41);
    assert_eq!(cleaned.get(), 0);
}

#[test]
fn run_cleans_the_value_up_once() {
    let cleaned = Cell::new(0u32);
    let guard = OnDropDefer::new(41u32, |v| cleaned.set(cleaned.get() + v));
    guard.run();
    assert_eq!(cleaned.get(), 41);
}

#[test]
fn as_mut_changes_what_is_cleaned_up() {
    let cleaned = Cell::new(0u32);
    let mut guard = OnDropDefer::new(41u32, |v| cleaned.set(v));
    *guard.as_mut() = 7;
    assert_eq!(*guard.as_ref(), 7);
    guard.run();
    assert_eq!(cleaned.get(), 7);
}

#[test]
fn guard_moves_its_value() {
    let guard = OnDropDefer::new(String::from("buffer"), |_s: String| {});
    let value: String = guard.take();
    assert_eq!(value, "buffer");
}
