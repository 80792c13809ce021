use aseprite_reader::RasterImage;

fn numbered(width: u32, height: u32) -> RasterImage {
    let data: Vec<u8> = (0..width * height * 4).map(|n| n as u8).collect();
    RasterImage::from_raw(width, height, data).unwrap()
}

#[test]
fn new_image_is_transparent() {
    let image = RasterImage::new(3, 2);
    assert_eq!((image.width(), image.height()), (3, 2));
    assert_eq!(image.as_raw(), &vec![0u8; 24]);
    assert_eq!(image.get_pixel(2, 1), [0, 0, 0, 0]);
    assert!(RasterImage::new(0, 0).into_raw().is_empty());
}

#[test]
fn from_raw_wants_four_bytes_for_each_pixel() {
    assert!(RasterImage::from_raw(2, 2, vec![0; 16]).is_some());
    assert!(RasterImage::from_raw(2, 2, vec![0; 15]).is_none());
    assert!(RasterImage::from_raw(2, 2, vec![0; 17]).is_none());
    assert!(RasterImage::from_raw(0, 9, vec![]).is_some());
    assert!(RasterImage::from_raw(u32::MAX, u32::MAX, vec![0; 4]).is_none());
}

#[test]
fn pixels_stand_row_by_row() {
    let image = numbered(3, 2);
    assert_eq!(image.get_pixel(0, 0), [0, 1, 2, 3]);
    assert_eq!(image.get_pixel(2, 0), [8, 9, 10, 11]);
    assert_eq!(image.get_pixel(0, 1), [12, 13, 14, 15]);
    assert_eq!(image.get_pixel(2, 1), [20, 21, 22, 23]);
    assert_eq!(image.clone(), image);
}

#[test]
fn blend_pixel_changes_one_pixel() {
    let image = numbered(2, 2).blend_pixel(1, 0, [9, 8, 7, 255]);
    assert_eq!(image.get_pixel(0, 0), [0, 1, 2, 3]);
    assert_eq!(image.get_pixel(1, 0), [9, 8, 7, 255]);
    assert_eq!(image.get_pixel(0, 1), [8, 9, 10, 11]);
    assert_eq!(image.get_pixel(1, 1), [12, 13, 14, 15]);
    // A fully transparent color changes nothing.
    let same = numbered(2, 2).blend_pixel(1, 1, [9, 8, 7, 0]);
    assert_eq!(same, numbered(2, 2));
    // A color in between is mixed with what is there.
    let mixed = RasterImage::from_raw(1, 1, vec![0, 0, 0, 255]).unwrap().blend_pixel(0, 0, [255, 255, 255, 128]);
    assert_eq!(mixed.get_pixel(0, 0), [128, 128, 128, 254]);
}

#[test]
fn crop_cuts_the_rectangle_to_the_image() {
    let image = numbered(4, 3);
    let part = image.crop(1, 1, 2, 2);
    assert_eq!((part.width(), part.height()), (2, 2));
    assert_eq!(part.get_pixel(0, 0), image.get_pixel(1, 1));
    assert_eq!(part.get_pixel(1, 0), image.get_pixel(2, 1));
    assert_eq!(part.get_pixel(0, 1), image.get_pixel(1, 2));
    assert_eq!(part.get_pixel(1, 1), image.get_pixel(2, 2));

    let cut = image.crop(3, 2, 10, 10);
    assert_eq!((cut.width(), cut.height()), (1, 1));
    assert_eq!(cut.get_pixel(0, 0), image.get_pixel(3, 2));

    let outside = image.crop(9, 9, 2, 2);
    assert_eq!((outside.width(), outside.height()), (0, 0));
    let edge = image.crop(4, 0, 2, 2);
    assert_eq!((edge.width(), edge.height()), (0, 2));
    assert_eq!(image.crop(0, 0, u32::MAX, u32::MAX), image);
    let none = image.crop(1, 1, 0, 0);
    assert_eq!((none.width(), none.height()), (0, 0));
}
