use signer::signature::{is_opaque, with_mask, Signature, SignatureError};

#[test]
fn a_scan_takes_its_mask_from_its_darkness() {
    let pixels = vec![[10, 20, 30, 255], [250, 250, 250, 255]];
    let masked = with_mask(pixels, &vec![20, 250]);
    assert_eq!(masked, vec![[10, 20, 30, 235], [250, 250, 250, 5]]);
}

#[test]
fn an_image_with_transparency_keeps_its_own() {
    let pixels = vec![[10, 20, 30, 255], [250, 250, 250, 0]];
    let masked = with_mask(pixels.clone(), &vec![20, 250]);
    assert_eq!(masked, pixels);
}

#[test]
fn opacity_is_every_pixel_at_full_alpha() {
    assert!(is_opaque(&vec![]));
    assert!(is_opaque(&vec![[0, 0, 0, 255]]));
    assert!(!is_opaque(&vec![[0, 0, 0, 255], [0, 0, 0, 254]]));
}

#[test]
fn the_signature_is_a_png_of_the_masked_pixels() {
    let pixels = vec![[0, 0, 0, 255], [255, 255, 255, 255], [100, 100, 100, 255], [0, 0, 0, 255]];
    let luma = vec![0, 255, 100, 0];
    let signature = Signature::from_pixels(2, 2, pixels, &luma).unwrap();
    assert_eq!((signature.width(), signature.height()), (2, 2));

    let decoded = image::load_from_memory(signature.png()).unwrap().into_rgba8();
    assert_eq!(decoded.dimensions(), (2, 2));
    let decoded: Vec<[u8; 4]> = decoded.pixels().map(|p| p.0).collect();
    assert_eq!(decoded, vec![[0, 0, 0, 255], [255, 255, 255, 0], [100, 100, 100, 155], [0, 0, 0, 255]]);
}

#[test]
fn pixels_that_do_not_fill_the_image_are_refused() {
    let pixels = vec![[0, 0, 0, 255]; 3];
    assert!(matches!(
        Signature::from_pixels(2, 2, pixels.clone(), &vec![0; 3]),
        Err(SignatureError::WrongSize)
    ));
    assert!(matches!(
        Signature::from_pixels(3, 1, pixels, &vec![0; 2]),
        Err(SignatureError::WrongSize)
    ));
}

#[test]
fn an_empty_image_cannot_be_encoded() {
    assert!(matches!(
        Signature::from_pixels(0, 0, vec![], &vec![]),
        Err(SignatureError::Encoding(_))
    ));
}
