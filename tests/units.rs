use trikz::scalar::{cm, inch, mm, px, UNIT};

#[test]
fn pixels() {
    assert_eq!(px(4 * UNIT), mm(UNIT));
    assert_eq!(cm(10_500_000), mm(105 * UNIT));
    assert_eq!(inch(2 * UNIT), px(192 * UNIT));
}
