use sand_rs::pixel::{SAND_SHADES, WATER_SHADES};
use sand_rs::{Pixel, PixelBehaviour};

#[test]
fn empty_is_black_and_dead() {
    let pixel = Pixel::empty();
    assert_eq!(pixel, Pixel { r: 0, g: 0, b: 0, behaviour: PixelBehaviour::Dead });
}

#[test]
fn sand_of_darkest_shade() {
    assert_eq!(
        Pixel::sand_of(0),
        Pixel { r: 210, g: 210, b: 180, behaviour: PixelBehaviour::Powder }
    );
}

#[test]
fn sand_of_brightest_shade() {
    assert_eq!(SAND_SHADES, 45);
    assert_eq!(
        Pixel::sand_of(44),
        Pixel { r: 254, g: 254, b: 180, behaviour: PixelBehaviour::Powder }
    );
}

#[test]
fn sand_of_middle_shade() {
    assert_eq!(
        Pixel::sand_of(7),
        Pixel { r: 217, g: 217, b: 180, behaviour: PixelBehaviour::Powder }
    );
}

#[test]
fn water_of_darkest_shade() {
    assert_eq!(
        Pixel::water_of(0),
        Pixel { r: 0, g: 90, b: 190, behaviour: PixelBehaviour::Liquid }
    );
}

#[test]
fn water_of_brightest_shade() {
    assert_eq!(WATER_SHADES, 15);
    assert_eq!(
        Pixel::water_of(14),
        Pixel { r: 0, g: 104, b: 204, behaviour: PixelBehaviour::Liquid }
    );
}

#[test]
fn water_of_unshifted_shade() {
    assert_eq!(
        Pixel::water_of(10),
        Pixel { r: 0, g: 100, b: 200, behaviour: PixelBehaviour::Liquid }
    );
}

#[test]
fn drawn_sand_is_a_shade_of_sand() {
    let mut rng = fastrand::Rng::with_seed(11);
    for _ in 0..2000 {
        let pixel = Pixel::sand(&mut rng);
        assert_eq!(pixel.behaviour, PixelBehaviour::Powder);
        assert_eq!(pixel.b, 180);
        assert_eq!(pixel.r, pixel.g);
        assert!(pixel.r >= 210);
        assert!(pixel.r <= 254);
        assert_eq!(pixel, Pixel::sand_of(pixel.r - 210));
    }
}

#[test]
fn drawn_sand_varies() {
    let mut rng = fastrand::Rng::with_seed(12);
    let first = Pixel::sand(&mut rng);
    let mut differs = false;
    for _ in 0..2000 {
        if Pixel::sand(&mut rng) != first {
            differs = true;
        }
    }
    assert!(differs);
}

#[test]
fn drawn_water_is_a_shade_of_water() {
    let mut rng = fastrand::Rng::with_seed(13);
    for _ in 0..2000 {
        let pixel = Pixel::water(&mut rng);
        assert_eq!(pixel.behaviour, PixelBehaviour::Liquid);
        assert_eq!(pixel.r, 0);
        assert!(pixel.g >= 90);
        assert!(pixel.g <= 104);
        assert_eq!(pixel.b, pixel.g + 100);
        assert_eq!(pixel, Pixel::water_of(pixel.g - 90));
    }
}

#[test]
fn drawn_water_varies() {
    let mut rng = fastrand::Rng::with_seed(14);
    let first = Pixel::water(&mut rng);
    let mut differs = false;
    for _ in 0..2000 {
        if Pixel::water(&mut rng) != first {
            differs = true;
        }
    }
    assert!(differs);
}

#[test]
fn equal_seeds_draw_equal_sand() {
    let mut one = fastrand::Rng::with_seed(99);
    let mut two = fastrand::Rng::with_seed(99);
    for _ in 0..100 {
        assert_eq!(Pixel::sand(&mut one), Pixel::sand(&mut two));
    }
}
