use yazi_nav::debounce::Debounce;
use yazi_nav::prompt::DEBOUNCE_MS;

#[test]
fn burst_of_five_yields_last() {
    let mut d: Debounce<u32> = Debounce::new(DEBOUNCE_MS);
    let mut seen = Vec::new();
    for (i, t) in [0u64, 2, 4, 7, 10].iter().enumerate() {
        if let Some(x) = d.poll(*t) {
            seen.push(x);
        }
        d.push(*t, i as u32 + 1);
    }
    assert_eq!(d.due_at(), Some(60));
    assert_eq!(d.poll(59), None);
    if let Some(x) = d.poll(60) {
        seen.push(x);
    }
    assert_eq!(seen, vec![5]);
    assert_eq!(d.poll(200), None);
}

#[test]
fn separate_windows_each_yield() {
    let mut d: Debounce<&str> = Debounce::new(50);
    d.push(0, "a");
    assert_eq!(d.poll(50), Some("a"));
    d.push(100, "b");
    assert_eq!(d.poll(120), None);
    assert_eq!(d.poll(150), Some("b"));
}

#[test]
fn flush_hands_on_pending() {
    let mut d: Debounce<u8> = Debounce::new(50);
    assert_eq!(d.flush(), None);
    d.push(5, 9);
    assert_eq!(d.flush(), Some(9));
    assert_eq!(d.due_at(), None);
}

#[test]
fn due_at_saturates() {
    let mut d: Debounce<u8> = Debounce::new(50);
    d.push(u64::MAX - 10, 1);
    assert_eq!(d.due_at(), Some(u64::MAX));
}
