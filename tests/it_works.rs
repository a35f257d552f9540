use rand::{seq::SliceRandom, thread_rng};
use ranger::Ranger;

#[test]
fn it_works() {
    let input_numbers: &mut [u8] = &mut [
        0, 1, 2, 4, 6, 7, 8, 11, 12, 14, 15, 16, 17, 18, 19, 20, 21, 0, 22, 23, 24, 25, 27, 28,
        29, 30, 31, 32, 33, 35, 36, 37, 38, 39,
    ];
    let mut ranger = Ranger::new();
    for num in input_numbers.iter() {
        ranger.insert(*num);
    }
    assert_eq!(ranger.to_string(), "0-2,4,6-8,11-12,14-25,27-33,35-39");
    drop(ranger);
    input_numbers.reverse();
    let mut ranger = Ranger::new();
    for num in input_numbers {
        ranger.insert(*num);
    }
    assert_eq!(ranger.to_string(), "0-2,4,6-8,11-12,14-25,27-33,35-39");
    drop(ranger);
    let input_numbers: &[i8] = &[
        -1, 33, 35, 23, 20, -128, 28, 0, 19, 18, 14, 25, 21, 127, 38, 6, 39, 27, 11, 17, 7, 12,
        126, -126, 31, 15, 32, 4, 29, 36, 22, 1, 0, 37, 30, 8, 24, 16, 2, -127, 125,
    ];
    let mut ranger = Ranger::new();
    for num in input_numbers {
        ranger.insert(*num);
    }
    assert_eq!(
        ranger.to_string(),
        "-128--126,-1-2,4,6-8,11-12,14-25,27-33,35-39,125-127"
    );
    println!("{:?} -> {}", input_numbers, ranger.to_string());
    drop(ranger);

    // Rule out edge cases
    for _ in 0..10_000 {
        let mut myvec = input_numbers.to_vec();
        myvec.shuffle(&mut thread_rng());
        let mut ranger = Ranger::new();
        for num in myvec {
            ranger.insert(num);
        }
        assert_eq!(
            ranger.to_string(),
            "-128--126,-1-2,4,6-8,11-12,14-25,27-33,35-39,125-127"
        );
    }
}
