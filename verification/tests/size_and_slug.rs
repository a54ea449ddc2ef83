use photolog::config::{PhotoConfig, SizeConfig};
use photolog::size::{
    Size, SizeCollection, SUFFIX_LARGE, SUFFIX_MEDIUM, SUFFIX_ORIGINAL, SUFFIX_THUMB,
};
use photolog::slug::slugify;

fn photo_config() -> PhotoConfig {
    PhotoConfig {
        source_ext: String::from(".tif"),
        output_ext: String::from(".webp"),
        outlier_seconds: 48 * 3600,
    }
}

#[test]
fn test_resize() {
    let source = Size::new(1024, 768, SUFFIX_LARGE);
    let target = Size::new(800, 600, SUFFIX_MEDIUM);

    assert_eq!(source.limit_to(800, SUFFIX_MEDIUM), target);

    let source = Size::new(768, 1024, SUFFIX_LARGE);
    let target = Size::new(600, 800, SUFFIX_MEDIUM);

    assert_eq!(source.limit_to(800, SUFFIX_MEDIUM), target);
}

#[test]
fn resize_never_enlarges() {
    let source = Size::new(400, 300, SUFFIX_ORIGINAL);
    let copy = source.limit_to(800, SUFFIX_MEDIUM);
    assert_eq!(copy.width, 400);
    assert_eq!(copy.height, 300);
    assert_eq!(copy.suffix, SUFFIX_MEDIUM);
}

#[test]
fn center_square_coordinates() {
    let wide = Size::new(300, 100, SUFFIX_ORIGINAL);
    assert_eq!(wide.center_square(), (100, 0, 100));
    let tall = Size::new(100, 300, SUFFIX_ORIGINAL);
    assert_eq!(tall.center_square(), (0, 100, 100));
    let square = Size::new(200, 200, SUFFIX_ORIGINAL);
    assert_eq!(square.center_square(), (0, 0, 200));
}

#[test]
fn build_url_pads_the_index() {
    let mut size = Size::new(100, 100, SUFFIX_MEDIUM);
    size.build_url("brother-ride/day-10", 7, &photo_config());
    assert_eq!(size.url, "brother-ride/day-10/007_m.webp");
    size.build_url("p", 123, &photo_config());
    assert_eq!(size.url, "p/123_m.webp");
}

#[test]
fn size_collection_scales_every_size() {
    let config = SizeConfig { large: 800, medium: 600, small: 300, thumb: 100 };
    let sizes = SizeCollection::from(1024, 768, &config);
    assert_eq!(sizes.original.width, 1024);
    assert_eq!(sizes.original.height, 768);
    assert_eq!((sizes.large.width, sizes.large.height), (800, 600));
    assert_eq!((sizes.medium.width, sizes.medium.height), (600, 450));
    assert_eq!((sizes.small.width, sizes.small.height), (300, 225));
    assert_eq!((sizes.thumb.width, sizes.thumb.height), (100, 100));
    assert_eq!(sizes.thumb.suffix, SUFFIX_THUMB);
    assert!(sizes.is_landscape());
    assert!(!sizes.is_portrait());
}

#[test]
fn slugify_test() {
    let expect = [
        ("Wiggle and Roll", "wiggle-and-roll"),
        ("Wiggle and    Sing", "wiggle-and-sing"),
        ("Too---dashing", "too-dashing"),
        ("powerful/oz", "powerful-oz"),
        ("three o' clock", "three-o-clock"),
        ("one_two_Three-48px", "one-two-three-48px"),
        ("camelCase", "camel-case"),
    ];

    for (k, v) in expect.iter() {
        assert_eq!(slugify(k), *v);
    }
}

#[test]
fn slugify_spells_out_ampersand() {
    assert_eq!(slugify("Fish & Chips"), "fish-and-chips");
}

#[test]
fn slugify_empty_text() {
    assert_eq!(slugify(""), "");
}
