use radiswap::random::{pseudo_random_choose, pseudo_random_number};

#[test]
fn number_is_draw_modulo_bound_plus_one() {
    assert_eq!(pseudo_random_number(12345, 9), 5);
    assert_eq!(pseudo_random_number(0, 9), 0);
    assert_eq!(pseudo_random_number(10, 9), 0);
    assert_eq!(pseudo_random_number(7, 0), 0);
    assert_eq!(pseudo_random_number(360, 360), 360);
}

#[test]
fn choose_picks_by_draw_modulo_length() {
    let items: [u64; 3] = [10, 20, 30];
    assert_eq!(pseudo_random_choose(&items, 0), 10);
    assert_eq!(pseudo_random_choose(&items, 4), 20);
    assert_eq!(pseudo_random_choose(&items, 5), 30);
}

#[test]
fn choose_from_single_item_list() {
    let items: [&str; 1] = ["only"];
    assert_eq!(pseudo_random_choose(&items, u128::MAX), "only");
}
