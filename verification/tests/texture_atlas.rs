use migo_graphics::texture_atlas::{
    AtlasError, AtlasManager, AtlasRect, TextureAtlas, DEFAULT_PADDING, DEFAULT_SIZE,
    MAX_ATLAS_IMAGE_SIZE, MAX_SIZE,
};

fn image(w: u32, h: u32, seed: u8) -> Vec<u8> {
    (0..(w * h * 4)).map(|i| (i as u8).wrapping_mul(7).wrapping_add(seed)).collect()
}

fn overlaps(a: AtlasRect, b: AtlasRect) -> bool {
    a.width > 0
        && a.height > 0
        && b.width > 0
        && b.height > 0
        && a.x < b.x + b.width
        && b.x < a.x + a.width
        && a.y < b.y + b.height
        && b.y < a.y + a.height
}

#[test]
fn new_atlas_is_blank_and_capped() {
    let a = TextureAtlas::new(64, 32);
    assert_eq!(a.size(), (64, 32));
    assert_eq!(a.pixels().len(), 64 * 32 * 4);
    assert!(a.pixels().iter().all(|b| *b == 0));
    assert_eq!(a.image_count(), 0);
    assert!(!a.needs_upload());
    let big = TextureAtlas::new(MAX_SIZE + 1, 8);
    assert_eq!(big.size(), (MAX_SIZE, 8));
    assert_eq!(DEFAULT_SIZE, 2048);
    assert_eq!(DEFAULT_PADDING, 1);
}

#[test]
fn added_image_pixels_land_in_its_rectangle() {
    let mut a = TextureAtlas::new(16, 16);
    let img = image(3, 2, 11);
    let r = a.add_image(7, 3, 2, &img).unwrap();
    assert_eq!((r.x, r.y, r.width, r.height), (1, 1, 3, 2));
    assert!(a.needs_upload());
    let px = a.pixels();
    for row in 0..16u32 {
        for col in 0..16u32 {
            for k in 0..4u32 {
                let i = ((row * 16 + col) * 4 + k) as usize;
                let inside = col >= r.x && col < r.x + 3 && row >= r.y && row < r.y + 2;
                let expected = if inside {
                    img[(((row - r.y) * 3 + (col - r.x)) * 4 + k) as usize]
                } else {
                    0
                };
                assert_eq!(px[i], expected, "byte {i}");
            }
        }
    }
    a.mark_uploaded();
    assert!(!a.needs_upload());
    assert_eq!(a.used_area(), 6);
}

#[test]
fn adding_the_same_id_twice_returns_the_first_rectangle() {
    let mut a = TextureAtlas::new(32, 32);
    let r1 = a.add_image(1, 4, 4, &image(4, 4, 0)).unwrap();
    let r2 = a.add_image(1, 8, 8, &image(8, 8, 0)).unwrap();
    assert_eq!(r1, r2);
    assert_eq!(a.image_count(), 1);
    assert_eq!(a.get_region(1), Some(r1));
    assert!(a.contains(1));
    assert!(!a.contains(2));
    assert_eq!(a.get_region(2), None);
}

#[test]
fn full_atlas_reports_full_and_keeps_its_state() {
    let mut a = TextureAtlas::new(8, 8);
    assert_eq!(a.add_image(1, 8, 8, &image(8, 8, 0)), Err(AtlasError::Full));
    a.set_padding(0);
    assert!(a.add_image(1, 8, 8, &image(8, 8, 3)).is_ok());
    let before = a.pixels().to_vec();
    assert_eq!(a.add_image(2, 1, 1, &image(1, 1, 0)), Err(AtlasError::Full));
    assert_eq!(a.pixels(), &before[..]);
    assert_eq!(a.image_count(), 1);
}

#[test]
fn many_images_never_overlap_and_stay_inside() {
    let mut a = TextureAtlas::new(128, 128);
    let mut placed = Vec::new();
    for id in 0..40u32 {
        let w = 3 + (id * 7) % 13;
        let h = 2 + (id * 5) % 11;
        if let Ok(r) = a.add_image(id, w, h, &image(w, h, id as u8)) {
            placed.push(r);
        }
    }
    assert!(placed.len() > 10);
    for (i, r) in placed.iter().enumerate() {
        assert!(r.x + r.width <= 128 && r.y + r.height <= 128);
        for s in placed.iter().skip(i + 1) {
            assert!(!overlaps(*r, *s), "{r:?} overlaps {s:?}");
        }
    }
}

#[test]
fn manager_fills_pages_in_order() {
    let mut m = AtlasManager::new(32);
    assert!(m.should_atlas(MAX_ATLAS_IMAGE_SIZE, 1));
    assert!(!m.should_atlas(MAX_ATLAS_IMAGE_SIZE + 1, 1));
    assert_eq!(m.add_image(9, 600, 10, &image(600, 10, 0)), Ok(None));
    assert_eq!(m.page_count(), 0);

    let (p1, r1) = m.add_image(1, 20, 20, &image(20, 20, 1)).unwrap().unwrap();
    assert_eq!(p1, 0);
    // Too big for what is left of page 0: a new page is opened.
    let (p2, _) = m.add_image(2, 20, 20, &image(20, 20, 2)).unwrap().unwrap();
    assert_eq!(p2, 1);
    // Small enough for page 0 again.
    let (p3, _) = m.add_image(3, 4, 4, &image(4, 4, 3)).unwrap().unwrap();
    assert_eq!(p3, 0);
    assert_eq!(m.page_count(), 2);
    assert_eq!(m.image_count(), 3);
    assert_eq!(m.get_image(1), Some((0, r1)));
    assert_eq!(m.get_image(4), None);

    // Bigger than a whole page: nothing changes.
    assert_eq!(m.add_image(5, 40, 40, &image(40, 40, 5)), Err(AtlasError::Full));
    assert_eq!(m.page_count(), 2);

    assert!(m.page(1).needs_upload());
    m.mark_page_uploaded(1);
    assert!(!m.page(1).needs_upload());
    assert!(m.page(0).needs_upload());
    m.clear();
    assert_eq!(m.page_count(), 0);
    assert_eq!(m.get_image(1), None);
}
