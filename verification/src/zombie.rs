//! The collectible-zombie data model: the wardrobe items and colors a zombie
//! carries, and the construction of a fresh zombie from raw random draws.
//!
//! Minting the zombie as a non-fungible resource is the calling layer's
//! business; here stands the mapping from draws to traits, verified for
//! every draw.

use vstd::prelude::*;

verus! {

use crate::random::pseudo_random_choose;
use crate::random::pseudo_random_number;

/// A hue between 0 and 360.
pub type Color = u16;

/// The possible items that a zombie can have on its head.
#[derive(Clone, Copy, Debug, PartialEq, Eq, PartialOrd, Ord)]
pub enum HeadItem {
    ArmyHat,
    PonyTail,
    GeneralHat,
    Bangs,
    LongHairAndBangs,
    BlackLongHair,
    ChristmasHat,
}

/// The possible eyes that a zombie can have.
#[derive(Clone, Copy, Debug, PartialEq, Eq, PartialOrd, Ord)]
pub enum EyeItem {
    DefaultEyes,
    EyesWithGlasses,
    LazyEyes,
    LazyEyesFalling,
    SmallEyes,
    PunchedEyes,
    AngryEyes,
    EyeWithEyeLashes,
    BlackEye,
    SuspiciousEyes,
    SleepyEyesWithEyeLashes,
}

/// The possible shirts that a zombie can have.
#[derive(Clone, Copy, Debug, PartialEq, Eq, PartialOrd, Ord)]
pub enum ShirtItem {
    Classic,
    White,
    Blue,
    BloodyWhite,
    Red,
    WhiteButtonDown,
}

/// The data that an individual zombie has.
#[derive(Clone, Copy, Debug, PartialEq, Eq)]
pub struct Zombie {
    /// The current equipped head item.
    pub head: HeadItem,
    /// The current equipped eye item.
    pub eye: EyeItem,
    /// The current equipped shirt.
    pub shirt: ShirtItem,
    /// The current equipped skin color.
    pub skin_color: Color,
    /// The current equipped eye color.
    pub eye_color: Color,
    /// The current equipped clothes color.
    pub clothes_color: Color,
}

impl Zombie {
    /// Assembles a zombie from its six traits.
    pub fn new(
        head: HeadItem,
        eye: EyeItem,
        shirt: ShirtItem,
        skin_color: Color,
        eye_color: Color,
        clothes_color: Color,
    ) -> (z: Zombie)
        ensures
            z == (Zombie { head, eye, shirt, skin_color, eye_color, clothes_color }),
    {
        Zombie { head, eye, shirt, skin_color, eye_color, clothes_color }
    }
}

/// Every head item, in declaration order.
pub open spec fn spec_head_items() -> Seq<HeadItem> {
    seq![
        HeadItem::ArmyHat,
        HeadItem::PonyTail,
        HeadItem::GeneralHat,
        HeadItem::Bangs,
        HeadItem::LongHairAndBangs,
        HeadItem::BlackLongHair,
        HeadItem::ChristmasHat,
    ]
}

/// Every eye item, in declaration order.
pub open spec fn spec_eye_items() -> Seq<EyeItem> {
    seq![
        EyeItem::DefaultEyes,
        EyeItem::EyesWithGlasses,
        EyeItem::LazyEyes,
        EyeItem::LazyEyesFalling,
        EyeItem::SmallEyes,
        EyeItem::PunchedEyes,
        EyeItem::AngryEyes,
        EyeItem::EyeWithEyeLashes,
        EyeItem::BlackEye,
        EyeItem::SuspiciousEyes,
        EyeItem::SleepyEyesWithEyeLashes,
    ]
}

/// Every shirt, in declaration order.
pub open spec fn spec_shirt_items() -> Seq<ShirtItem> {
    seq![
        ShirtItem::Classic,
        ShirtItem::White,
        ShirtItem::Blue,
        ShirtItem::BloodyWhite,
        ShirtItem::Red,
        ShirtItem::WhiteButtonDown,
    ]
}

/// Lists every head item, in declaration order.
pub fn head_items() -> (v: Vec<HeadItem>)
    ensures
        v@ == spec_head_items(),
{
    let v = vec![
        HeadItem::ArmyHat,
        HeadItem::PonyTail,
        HeadItem::GeneralHat,
        HeadItem::Bangs,
        HeadItem::LongHairAndBangs,
        HeadItem::BlackLongHair,
        HeadItem::ChristmasHat,
    ];
    proof {
        assert(v@ =~= spec_head_items());
    }
    v
}

/// Lists every eye item, in declaration order.
pub fn eye_items() -> (v: Vec<EyeItem>)
    ensures
        v@ == spec_eye_items(),
{
    let v = vec![
        EyeItem::DefaultEyes,
        EyeItem::EyesWithGlasses,
        EyeItem::LazyEyes,
        EyeItem::LazyEyesFalling,
        EyeItem::SmallEyes,
        EyeItem::PunchedEyes,
        EyeItem::AngryEyes,
        EyeItem::EyeWithEyeLashes,
        EyeItem::BlackEye,
        EyeItem::SuspiciousEyes,
        EyeItem::SleepyEyesWithEyeLashes,
    ];
    proof {
        assert(v@ =~= spec_eye_items());
    }
    v
}

/// Lists every shirt, in declaration order.
pub fn shirt_items() -> (v: Vec<ShirtItem>)
    ensures
        v@ == spec_shirt_items(),
{
    let v = vec![
        ShirtItem::Classic,
        ShirtItem::White,
        ShirtItem::Blue,
        ShirtItem::BloodyWhite,
        ShirtItem::Red,
        ShirtItem::WhiteButtonDown,
    ];
    proof {
        assert(v@ =~= spec_shirt_items());
    }
    v
}

/// Builds a **pseudo** random zombie from six raw draws of the host's
/// unique-id generator: one draw per wardrobe slot and one per color.
pub fn random_zombie(
    head_draw: u128,
    eye_draw: u128,
    shirt_draw: u128,
    skin_draw: u128,
    eye_color_draw: u128,
    clothes_draw: u128,
) -> (z: Zombie)
    ensures
        z.head == spec_head_items()[head_draw as int % 7],
        z.eye == spec_eye_items()[eye_draw as int % 11],
        z.shirt == spec_shirt_items()[shirt_draw as int % 6],
        z.skin_color as int == skin_draw as int % 361,
        z.eye_color as int == eye_color_draw as int % 361,
        z.clothes_color as int == clothes_draw as int % 361,
{
    let heads = head_items();
    let eyes = eye_items();
    let shirts = shirt_items();
    let head = pseudo_random_choose(heads.as_slice(), head_draw);
    let eye = pseudo_random_choose(eyes.as_slice(), eye_draw);
    let shirt = pseudo_random_choose(shirts.as_slice(), shirt_draw);
    let skin_color = pseudo_random_number(skin_draw, 360) as u16;
    let eye_color = pseudo_random_number(eye_color_draw, 360) as u16;
    let clothes_color = pseudo_random_number(clothes_draw, 360) as u16;
    Zombie::new(head, eye, shirt, skin_color, eye_color, clothes_color)
}

} // verus!
