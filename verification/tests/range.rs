use datetime_select::range::clamp;
use datetime_select::CivilDateTime;

fn at(year: i32, month: u32, day: u32, hour: u32, minute: u32, second: u32) -> CivilDateTime {
    CivilDateTime::new(year, month, day, hour, minute, second).unwrap()
}

fn samples() -> Vec<CivilDateTime> {
    vec![
        at(1999, 12, 31, 23, 59, 59),
        at(2020, 2, 20, 2, 20, 24),
        at(2020, 2, 20, 2, 20, 25),
        at(2020, 2, 20, 2, 20, 26),
        at(2020, 7, 8, 17, 1, 30),
        at(2022, 11, 29, 23, 59, 59),
        at(2022, 11, 30, 0, 0, 0),
        at(2022, 11, 30, 0, 0, 1),
        at(2030, 1, 1, 0, 0, 0),
    ]
}

#[test]
fn clamp_snaps_to_the_nearer_bound() {
    let lower = at(2020, 2, 20, 2, 20, 25);
    let upper = at(2022, 11, 30, 0, 0, 0);
    assert_eq!(clamp(at(2020, 7, 8, 17, 1, 30), lower, upper), at(2020, 7, 8, 17, 1, 30));
    assert_eq!(clamp(at(2000, 1, 1, 0, 0, 0), lower, upper), lower);
    assert_eq!(clamp(at(2030, 1, 1, 0, 0, 0), lower, upper), upper);
    assert_eq!(clamp(lower, lower, upper), lower);
    assert_eq!(clamp(upper, lower, upper), upper);
    assert_eq!(clamp(at(2020, 2, 20, 2, 20, 24), lower, upper), lower);
    assert_eq!(clamp(at(2022, 11, 30, 0, 0, 1), lower, upper), upper);
}

#[test]
fn clamp_between_equal_bounds_gives_the_bound() {
    let bound = at(2021, 6, 1, 12, 0, 0);
    for v in samples() {
        assert_eq!(clamp(v, bound, bound), bound);
    }
}

#[test]
fn clamp_with_bounds_out_of_order_gives_the_lower_bound() {
    let lower = at(2022, 11, 30, 0, 0, 0);
    let upper = at(2020, 2, 20, 2, 20, 25);
    for v in samples() {
        assert_eq!(clamp(v, lower, upper), lower);
    }
}

#[test]
fn clamp_is_idempotent() {
    let lower = at(2020, 2, 20, 2, 20, 25);
    let upper = at(2022, 11, 30, 0, 0, 0);
    for v in samples() {
        let once = clamp(v, lower, upper);
        assert_eq!(clamp(once, lower, upper), once);
        assert!(lower.not_after(once) && once.not_after(upper));
    }
}

#[test]
fn clamp_is_monotonic() {
    let lower = at(2020, 2, 20, 2, 20, 25);
    let upper = at(2022, 11, 30, 0, 0, 0);
    for v1 in samples() {
        for v2 in samples() {
            if v1.not_after(v2) {
                assert!(clamp(v1, lower, upper).not_after(clamp(v2, lower, upper)));
            }
        }
    }
}
