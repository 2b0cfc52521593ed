use trashy_bot::bank::get_payout;
use trashy_bot::slot::reel_from_roll;

#[test]
fn bank_test_reels() {
    for roll in 0..7 {
        let reel = reel_from_roll(roll);
        let (prev, next) = if roll == 6 {
            (5, 0)
        } else if roll == 0 {
            (6, 1)
        } else {
            (roll - 1, roll + 1)
        };
        assert_eq!(reel, vec![prev, roll, next]);
    }
}

#[test]
fn bank_test_payout() {
    let full_reels_1 = vec![vec![0, 1, 2], vec![0, 1, 2], vec![0, 1, 2]];
    let full_reels_2 = vec![vec![0, 1, 2], vec![6, 0, 1], vec![5, 6, 0]];
    let full_reels_3 = vec![vec![0, 1, 2], vec![1, 2, 3], vec![2, 3, 4]];

    assert_eq!(get_payout(&full_reels_1, 10), 40);
    assert_eq!(get_payout(&full_reels_2, 20), 60);
    assert_eq!(get_payout(&full_reels_3, 30), 60);
}
