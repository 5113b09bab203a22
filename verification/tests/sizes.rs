use utmp_rs::raw::x64::utmp as utmp64;
use utmp_rs::raw::{utmp, RawRecord};

#[test]
fn test_size_of() {
    assert_eq!(<utmp as RawRecord>::size(), 384);
}

#[test]
fn test_size_of_utmp_x64() {
    assert_eq!(<utmp64 as RawRecord>::size(), 400);
}
