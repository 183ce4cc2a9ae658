use radiswap::zombie::{
    eye_items, head_items, random_zombie, shirt_items, EyeItem, HeadItem, ShirtItem, Zombie,
};

#[test]
fn item_lists_are_complete_and_ordered() {
    let heads = head_items();
    assert_eq!(heads.len(), 7);
    assert_eq!(heads[0], HeadItem::ArmyHat);
    assert_eq!(heads[6], HeadItem::ChristmasHat);
    let eyes = eye_items();
    assert_eq!(eyes.len(), 11);
    assert_eq!(eyes[0], EyeItem::DefaultEyes);
    assert_eq!(eyes[10], EyeItem::SleepyEyesWithEyeLashes);
    let shirts = shirt_items();
    assert_eq!(shirts.len(), 6);
    assert_eq!(shirts[0], ShirtItem::Classic);
    assert_eq!(shirts[5], ShirtItem::WhiteButtonDown);
}

#[test]
fn new_keeps_all_traits() {
    let z = Zombie::new(HeadItem::Bangs, EyeItem::LazyEyes, ShirtItem::Red, 12, 34, 56);
    assert_eq!(z.head, HeadItem::Bangs);
    assert_eq!(z.eye, EyeItem::LazyEyes);
    assert_eq!(z.shirt, ShirtItem::Red);
    assert_eq!(z.skin_color, 12);
    assert_eq!(z.eye_color, 34);
    assert_eq!(z.clothes_color, 56);
}

#[test]
fn random_zombie_follows_the_draws() {
    let z = random_zombie(0, 1, 2, 3, 4, 5);
    assert_eq!(z.head, HeadItem::ArmyHat);
    assert_eq!(z.eye, EyeItem::EyesWithGlasses);
    assert_eq!(z.shirt, ShirtItem::Blue);
    assert_eq!(z.skin_color, 3);
    assert_eq!(z.eye_color, 4);
    assert_eq!(z.clothes_color, 5);
}

#[test]
fn random_zombie_wraps_large_draws() {
    // 8 % 7 picks the second head, 12 % 11 the second eye item,
    // 7 % 6 the second shirt, 361 % 361 the hue 0.
    let z = random_zombie(8, 12, 7, 361, 722, 360);
    assert_eq!(z.head, HeadItem::PonyTail);
    assert_eq!(z.eye, EyeItem::EyesWithGlasses);
    assert_eq!(z.shirt, ShirtItem::White);
    assert_eq!(z.skin_color, 0);
    assert_eq!(z.eye_color, 0);
    assert_eq!(z.clothes_color, 360);
}
