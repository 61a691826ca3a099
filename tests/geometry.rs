use absm_client::geometry::{Abs, Aspect, Axis, Pair, Ratio, Rect, Sign};

fn rect(ax: i64, ay: i64, bx: i64, by: i64) -> Rect<i64> {
    Rect { min: Pair([ax, ay]), max: Pair([bx, by]) }
}

fn same(a: &Rect<i64>, b: &Rect<i64>) -> bool {
    a.min.0 == b.min.0 && a.max.0 == b.max.0
}

#[test]
fn axis_swap_and_index() {
    assert_eq!(Axis::X.swap(), Axis::Y);
    assert_eq!(Axis::Y.swap(), Axis::X);
    assert_eq!(Axis::X.as_index(), 0);
    assert_eq!(Axis::Y.as_index(), 1);
}

#[test]
fn pair_swap_get_set() {
    let mut p = Pair::new(3, 7);
    p.swap();
    assert_eq!(p.0, [7, 3]);
    p.set(Axis::Y, 9);
    assert_eq!(p.get(Axis::Y), 9);
    assert_eq!(p.get(Axis::X), 7);
}

#[test]
fn sign_from_cmp() {
    assert_eq!(Sign::from_cmp(0, 5), Sign::Positive);
    assert_eq!(Sign::from_cmp(5, 5), Sign::Positive);
    assert_eq!(Sign::from_cmp(5, 0), Sign::Negative);
}

#[test]
fn abs_and_signum() {
    assert_eq!(Abs::abs(-4i64), 4);
    assert_eq!(Abs::abs(4i64), 4);
    assert_eq!(Abs::signum(-4i64), -1);
    assert_eq!(Abs::signum(0i64), 0);
    assert_eq!(Abs::signum(9i64), 1);
}

#[test]
fn signs_and_swapping() {
    let r = rect(0, 0, 10, 20);
    assert!(!r.should_swap());
    let s = r.sign_pair();
    assert_eq!(s.0, [Sign::Positive, Sign::Positive]);
    let f = rect(0, 20, 10, 0);
    assert!(f.should_swap());
    assert_eq!(f.sign(Axis::Y), Sign::Negative);
    assert_eq!(f.devirtualize(Axis::X), Axis::Y);
    assert_eq!(f.devirtualize(Axis::Y), Axis::X);
}

#[test]
fn virtual_accessors_follow_swap() {
    let f = rect(1, 20, 11, 0);
    assert_eq!(f.virtual_min(Axis::X), 20);
    assert_eq!(f.virtual_max(Axis::X), 0);
    assert_eq!(f.virtual_width(), -20);
    assert_eq!(f.virtual_height(), 10);
    assert_eq!(f.virtual_size(Axis::Y), 10);
}

#[test]
fn aspect_classification() {
    assert!(matches!(rect(0, 0, 1920, 1080).aspect(), Aspect::Landscape));
    assert!(matches!(rect(0, 0, 100, 100).aspect(), Aspect::Square));
    assert!(matches!(rect(0, 0, 1080, 1920).aspect(), Aspect::Portrait));
    assert!(Aspect::Square == Aspect::Landscape);
    assert!(Aspect::Square == Aspect::Portrait);
    assert!(Aspect::Landscape != Aspect::Portrait);
}

#[test]
fn aspect_ratios() {
    let r = rect(1920, 1080, 0, 0);
    let a = r.aspect_ratio();
    assert_eq!((a.num, a.den), (1920, 1080));
    let i = r.inv_aspect_ratio();
    assert_eq!((i.num, i.den), (1080, 1920));
    let square = Ratio { num: 3, den: 3 };
    assert_eq!(a.compare(&square), std::cmp::Ordering::Greater);
    assert_eq!(square.compare(&Ratio { num: 1, den: 1 }), std::cmp::Ordering::Equal);
    assert_eq!(i.compare(&square), std::cmp::Ordering::Less);
}

#[test]
fn rotate_positive_then_negative_restores() {
    let start = rect(1, 2, 30, 40);
    let mut r = start;
    r.rotate_positive();
    assert!(same(&r, &rect(40, 1, 2, 30)));
    r.rotate_negative();
    assert!(same(&r, &start));
}

#[test]
fn rotate_negative_then_positive_restores() {
    let start = rect(-5, 7, 12, -9);
    let mut r = start;
    r.rotate_negative();
    assert!(same(&r, &rect(7, 12, -9, -5)));
    r.rotate_positive();
    assert!(same(&r, &start));
}

#[test]
fn rotate_full_swaps_corners() {
    let mut r = rect(1, 2, 3, 4);
    r.rotate_full();
    assert!(same(&r, &rect(3, 4, 1, 2)));
}

#[test]
fn resize_keeps_center() {
    let mut r = rect(0, 0, 1000, 1000);
    r.resize_virtual_axis(Axis::Y, 562);
    assert!(same(&r, &rect(0, 219, 1000, 781)));
    assert_eq!(r.min.get(Axis::Y) + r.max.get(Axis::Y), 1000);
}

#[test]
fn resize_on_flipped_axis() {
    let mut r = rect(0, 100, 50, 0);
    // The rectangle swaps, so its virtual x axis is stored on y.
    r.resize_virtual_axis(Axis::X, 40);
    assert!(same(&r, &rect(0, 70, 50, 30)));
}

#[test]
fn resize_grows_too() {
    let mut r = rect(10, 0, 20, 5);
    r.resize_virtual_axis(Axis::X, 30);
    assert!(same(&r, &rect(0, 0, 30, 5)));
}

#[test]
fn cast_and_map() {
    let r: Rect<i32> = Rect { min: Pair([-3, 4]), max: Pair([5, 6]) };
    let w = r.cast();
    assert!(same(&w, &rect(-3, 4, 5, 6)));
    let d = w.map(|v: i64| -> i64 { v * 2 });
    assert!(same(&d, &rect(-6, 8, 10, 12)));
}
