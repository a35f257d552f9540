use ranger::Ranger;

fn build<T: ranger::Value>(values: &[T]) -> Ranger<T> {
    let mut r = Ranger::new();
    for v in values {
        r.insert(*v);
    }
    r
}

/// Parses the canonical text back into `(low, high)` pairs.
fn parse(text: &str) -> Vec<(i128, i128)> {
    if text.is_empty() {
        return Vec::new();
    }
    text.split(',')
        .map(|part| {
            // A dash after the first character separates the two bounds.
            match part[1..].find('-') {
                Some(k) => {
                    let (l, h) = part.split_at(k + 1);
                    (l.parse().unwrap(), h[1..].parse().unwrap())
                }
                None => {
                    let v: i128 = part.parse().unwrap();
                    (v, v)
                }
            }
        })
        .collect()
}

#[test]
fn empty_set_renders_empty() {
    let r: Ranger<u8> = Ranger::new();
    assert_eq!(r.to_string(), "");
    assert!(!r.contains(&0));
    let d: Ranger<i32> = Ranger::default();
    assert_eq!(d.to_string(), "");
}

#[test]
fn single_value() {
    let r = build(&[42u8]);
    assert_eq!(r.to_string(), "42");
    assert!(r.contains(&42));
    assert!(!r.contains(&41));
    assert!(!r.contains(&43));
}

#[test]
fn scenario_unsigned() {
    let values: Vec<u8> = vec![
        0, 1, 2, 4, 6, 7, 8, 11, 12, 14, 15, 16, 17, 18, 19, 20, 21, 22, 23, 24, 25, 27, 28, 29,
        30, 31, 32, 33, 35, 36, 37, 38, 39,
    ];
    assert_eq!(build(&values).to_string(), "0-2,4,6-8,11-12,14-25,27-33,35-39");
}

#[test]
fn scenario_signed_ascending() {
    let mut values: Vec<i8> = vec![-128, -127, -126, -1, 0, 1, 2, 4, 6, 7, 8, 11, 12];
    values.extend(14..=25);
    values.extend(27..=33);
    values.extend(35..=39);
    values.extend([125, 126, 127]);
    let expected = "-128--126,-1-2,4,6-8,11-12,14-25,27-33,35-39,125-127";
    assert_eq!(build(&values).to_string(), expected);
    values.reverse();
    assert_eq!(build(&values).to_string(), expected);
}

#[test]
fn boundary_saturation_unsigned() {
    let mut r = Ranger::new();
    r.insert(254u8);
    r.insert(255u8);
    assert_eq!(r.to_string(), "254-255");
    r.insert(0u8);
    assert_eq!(r.to_string(), "0,254-255");
}

#[test]
fn boundary_saturation_signed() {
    let mut r = Ranger::new();
    r.insert(127i8);
    r.insert(-128i8);
    assert_eq!(r.to_string(), "-128,127");
    r.insert(126i8);
    r.insert(-127i8);
    assert_eq!(r.to_string(), "-128--127,126-127");
}

#[test]
fn boundary_wide_types() {
    let r = build(&[u64::MAX, 0, u64::MAX - 1]);
    assert_eq!(r.to_string(), "0,18446744073709551614-18446744073709551615");
    let r = build(&[i64::MIN, i64::MAX, i64::MIN + 1]);
    assert_eq!(r.to_string(), "-9223372036854775808--9223372036854775807,9223372036854775807");
    let r = build(&[usize::MAX, 0usize]);
    assert_eq!(r.to_string(), format!("0,{}", usize::MAX));
    let r = build(&[isize::MIN, -1isize, 0]);
    assert_eq!(r.to_string(), format!("{},-1-0", isize::MIN));
    let r = build(&[65535u16, 0, 7u16, 8u16]);
    assert_eq!(r.to_string(), "0,7-8,65535");
    let r = build(&[-32768i16, 32767, -5, -4, -6]);
    assert_eq!(r.to_string(), "-32768,-6--4,32767");
    let r = build(&[4294967295u32, 4294967294, 1]);
    assert_eq!(r.to_string(), "1,4294967294-4294967295");
    let r = build(&[i32::MIN, i32::MAX]);
    assert_eq!(r.to_string(), "-2147483648,2147483647");
}

#[test]
fn bridging_in_every_order() {
    let orders: [[u8; 3]; 6] = [[5, 7, 6], [5, 6, 7], [6, 5, 7], [6, 7, 5], [7, 5, 6], [7, 6, 5]];
    for order in orders {
        assert_eq!(build(&order).to_string(), "5-7");
    }
}

#[test]
fn bridging_two_ranges() {
    let mut r = build(&[1u16, 2, 3, 5, 6, 7]);
    assert_eq!(r.to_string(), "1-3,5-7");
    assert!(r.insert(4));
    assert_eq!(r.to_string(), "1-7");
}

#[test]
fn insert_reports_change() {
    let mut r = Ranger::new();
    assert!(r.insert(10i32));
    assert!(r.insert(11i32));
    assert!(!r.insert(10i32));
    assert!(!r.insert(11i32));
    assert!(r.insert(13i32));
    assert_eq!(r.to_string(), "10-11,13");
}

#[test]
fn reinsert_leaves_text_unchanged() {
    let mut r = build(&[3i64, 4, 5, 9, 20, 21]);
    let before = r.to_string();
    for v in [3i64, 4, 5, 9, 20, 21] {
        assert!(!r.insert(v));
        assert_eq!(r.to_string(), before);
    }
}

#[test]
fn order_does_not_matter() {
    let values: Vec<i16> = vec![-300, -299, -5, 0, 1, 2, 10, 12, 11, 40, 41, 1000, -298];
    let expected = build(&values).to_string();
    assert_eq!(expected, "-300--298,-5,0-2,10-12,40-41,1000");
    let mut rev = values.clone();
    rev.reverse();
    assert_eq!(build(&rev).to_string(), expected);
    // Every rotation of the input gives the same text.
    for k in 0..values.len() {
        let mut rotated = values.clone();
        rotated.rotate_left(k);
        assert_eq!(build(&rotated).to_string(), expected);
    }
}

#[test]
fn intervals_stay_apart() {
    let values: Vec<u32> = vec![9, 1, 3, 5, 2, 100, 7, 8, 50, 52, 51, 6, 99];
    let mut r = Ranger::new();
    for v in values {
        r.insert(v);
        let units = parse(&r.to_string());
        for w in units.windows(2) {
            assert!(w[0].0 <= w[0].1);
            assert!(w[1].0 - w[0].1 >= 2);
        }
    }
    assert_eq!(r.to_string(), "1-3,5-9,50-52,99-100");
}

#[test]
fn membership_matches_text() {
    let values: Vec<i8> = vec![-128, -127, -3, -2, 0, 5, 6, 7, 100, 127];
    let r = build(&values);
    let units = parse(&r.to_string());
    for x in i8::MIN..=i8::MAX {
        let printed = units.iter().any(|&(l, h)| l <= x as i128 && x as i128 <= h);
        assert_eq!(r.contains(&x), printed, "value {}", x);
        assert_eq!(r.contains(&x), values.contains(&x));
    }
}

#[test]
fn clone_keeps_contents() {
    let r = build(&[1u8, 2, 3, 10]);
    let mut c = r.clone();
    assert_eq!(c.to_string(), "1-3,10");
    c.insert(4);
    assert_eq!(c.to_string(), "1-4,10");
    assert_eq!(r.to_string(), "1-3,10");
}
