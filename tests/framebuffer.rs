use rays::framebuffer::{ColorMatrix, Rgb8};
use rays::render::{render, RenderSettings, SettingsError};

#[test]
fn create_and_compute_dimensions() {
    let mat = ColorMatrix::new(2, 3, (0.0f32, 0.0f32, 0.0f32));
    assert_eq!(mat.width(), 2);
    assert_eq!(mat.height(), 3);
}

#[test]
fn access_entry() {
    let mat = ColorMatrix::new(2, 3, (0.0f32, 0.0f32, 0.0f32));
    let bottom_right_entry = mat.at(2, 1);
    assert_eq!(*bottom_right_entry, (0.0, 0.0, 0.0))
}

#[test]
fn access_and_modify_entry() {
    let mut mat = ColorMatrix::new(2, 3, (0.0f32, 0.0f32, 0.0f32));
    let bottom_right_entry = mat.at_mut(2, 1);
    assert_eq!(*bottom_right_entry, (0.0, 0.0, 0.0));

    *bottom_right_entry = (1.0, 1.0, 1.0);
    assert_eq!(*mat.at(2, 1), (1.0, 1.0, 1.0));
}

#[test]
fn modifying_one_cell_keeps_the_others() {
    let mut mat = ColorMatrix::new(3, 2, 0u32);
    *mat.at_mut(1, 2) = 7;
    *mat.at_mut(0, 1) = 5;
    for row in 0..2 {
        for col in 0..3 {
            let expected = match (row, col) {
                (1, 2) => 7,
                (0, 1) => 5,
                _ => 0,
            };
            assert_eq!(*mat.at(row, col), expected);
        }
    }
}

#[test]
fn empty_matrix_has_no_rows() {
    let mat = ColorMatrix::new(4, 0, 1u8);
    assert_eq!(mat.width(), 4);
    assert_eq!(mat.height(), 0);
}

#[test]
fn map_transforms_each_cell_in_place() {
    let mut mat = ColorMatrix::new(2, 2, 1u32);
    *mat.at_mut(1, 0) = 10;
    let doubled = mat.map(|c: u32| c as u64 * 2);
    assert_eq!(doubled.width(), 2);
    assert_eq!(doubled.height(), 2);
    assert_eq!(*doubled.at(0, 0), 2);
    assert_eq!(*doubled.at(0, 1), 2);
    assert_eq!(*doubled.at(1, 0), 20);
    assert_eq!(*doubled.at(1, 1), 2);
}

#[test]
fn rgb_bytes_are_row_major() {
    let mut mat = ColorMatrix::new(2, 2, Rgb8 { r: 0, g: 0, b: 0 });
    *mat.at_mut(0, 1) = Rgb8 { r: 1, g: 2, b: 3 };
    *mat.at_mut(1, 0) = Rgb8 { r: 4, g: 5, b: 6 };
    *mat.at_mut(1, 1) = Rgb8 { r: 255, g: 128, b: 7 };
    assert_eq!(
        mat.to_bytes(None),
        vec![0, 0, 0, 1, 2, 3, 4, 5, 6, 255, 128, 7]
    );
}

#[test]
fn rgba_bytes_carry_the_alpha() {
    let mut mat = ColorMatrix::new(2, 1, Rgb8 { r: 9, g: 8, b: 7 });
    *mat.at_mut(0, 1) = Rgb8 { r: 1, g: 2, b: 3 };
    assert_eq!(mat.to_bytes(Some(0xff)), vec![9, 8, 7, 255, 1, 2, 3, 255]);
}

#[test]
fn settings_accept_a_plain_render() {
    let settings = RenderSettings::new(800, 500, 1, 10).unwrap();
    assert_eq!(settings.output_width(), 800);
    assert_eq!(settings.output_height(), 500);
    assert_eq!(settings.samples_per_pixel(), 1);
    assert_eq!(settings.bounce_depth(), 10);
}

#[test]
fn settings_accept_zero_bounce_depth() {
    assert!(RenderSettings::new(1, 1, 500, 0).is_ok());
}

#[test]
fn settings_reject_an_empty_image() {
    assert_eq!(RenderSettings::new(0, 5, 1, 4), Err(SettingsError::EmptyImage));
    assert_eq!(RenderSettings::new(5, 0, 1, 4), Err(SettingsError::EmptyImage));
    assert_eq!(RenderSettings::new(0, 0, 0, 4), Err(SettingsError::EmptyImage));
}

#[test]
fn settings_reject_zero_samples() {
    assert_eq!(RenderSettings::new(5, 5, 0, 4), Err(SettingsError::NoSamples));
}

#[test]
fn settings_reject_more_pixels_than_memory_can_index() {
    let result = RenderSettings::new(u32::MAX, u32::MAX, 1, 4);
    if (u32::MAX as u128) * (u32::MAX as u128) > usize::MAX as u128 {
        assert_eq!(result, Err(SettingsError::TooManyPixels));
    } else {
        assert!(result.is_ok());
    }
}

#[test]
fn render_shades_each_pixel_into_its_cell() {
    let settings = RenderSettings::new(3, 2, 1, 1).unwrap();
    let mat = render(&settings, |x: u32, y: u32| (x, y));
    assert_eq!(mat.width(), 3);
    assert_eq!(mat.height(), 2);
    for y in 0..2u32 {
        for x in 0..3u32 {
            assert_eq!(*mat.at(y as usize, x as usize), (x, y));
        }
    }
}

#[test]
fn render_then_encode_gives_row_major_pixels() {
    let settings = RenderSettings::new(2, 2, 1, 1).unwrap();
    let mat = render(&settings, |x: u32, y: u32| Rgb8 { r: x as u8, g: y as u8, b: 9 });
    assert_eq!(
        mat.to_bytes(None),
        vec![0, 0, 9, 1, 0, 9, 0, 1, 9, 1, 1, 9]
    );
}
