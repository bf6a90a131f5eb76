use domain_experts::clock::{new_uuid, Timestamp};

#[test]
fn representable_range_and_leap_seconds() {
    assert!(Timestamp::from_parts(0, 0).is_some());
    assert!(Timestamp::from_parts(8210266876799, 999_999_999).is_some());
    assert!(Timestamp::from_parts(8210266876800, 0).is_none());
    assert!(Timestamp::from_parts(-8334601228800, 0).is_some());
    assert!(Timestamp::from_parts(-8334601228801, 0).is_none());
    assert!(Timestamp::from_parts(59, 1_500_000_000).is_some());
    assert!(Timestamp::from_parts(58, 1_500_000_000).is_none());
    assert!(Timestamp::from_parts(59, 2_000_000_000).is_none());
}

#[test]
fn formats_of_a_point() {
    let t = Timestamp::from_parts(951829500, 0).unwrap();
    assert_eq!(t.date_hour_minute(), "2000-02-29 13:05");
    assert_eq!(t.hour_minute(), "13:05");
    assert_eq!(t.hour_minute_second(), "13:05:00");
    let leap = Timestamp::from_parts(86399, 1_500_000_000).unwrap();
    assert_eq!(leap.hour_minute_second(), "23:59:60");
    let old = Timestamp::from_parts(-62167305600, 0).unwrap();
    assert_eq!(old.date_hour_minute(), "-0001-12-31 00:00");
    let early = Timestamp::from_parts(-62135596800, 0).unwrap();
    assert_eq!(early.date_hour_minute(), "0001-01-01 00:00");
    let far = Timestamp::from_parts(8210266876799, 0).unwrap();
    assert_eq!(far.date_hour_minute(), "+262142-12-31 23:59");
    let first = Timestamp::from_parts(-8334601228800, 0).unwrap();
    assert_eq!(first.date_hour_minute(), "-262143-01-01 00:00");
}

#[test]
fn uuid_form() {
    let id = new_uuid();
    let cs: Vec<char> = id.chars().collect();
    assert_eq!(cs.len(), 36);
    for (i, c) in cs.iter().enumerate() {
        if [8, 13, 18, 23].contains(&i) {
            assert_eq!(*c, '-');
        } else {
            assert!(c.is_ascii_hexdigit() && !c.is_ascii_uppercase());
        }
    }
    assert_eq!(cs[14], '4');
    assert!(['8', '9', 'a', 'b'].contains(&cs[19]));
}
