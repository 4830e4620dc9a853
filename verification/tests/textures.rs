use gui_bridge::error::PainterError;
use gui_bridge::pixel_buffer::{
    fills_exactly, Color, CoverageImage, ImageData, PixelBuffer, RgbaImage, TextureFormat,
    TextureHandle,
};
use gui_bridge::texture_store::{
    ImageDelta, TextureAction, TextureDelta, TextureId, TextureStore, TexturesDelta,
};

fn solid(width: usize, height: usize, color: Color) -> RgbaImage {
    RgbaImage { width, height, pixels: vec![color; width * height] }
}

fn red() -> Color {
    Color { r: 255, g: 0, b: 0, a: 255 }
}

fn set(id: TextureId, image: RgbaImage) -> TextureDelta {
    TextureDelta::SetImage { id, image: ImageData::Color(image), pos: None }
}

fn srgb(width: u32, height: u32) -> TextureHandle {
    TextureHandle { format: TextureFormat::Rgba8UnormSrgb, width, height }
}

#[test]
fn color_image_expands_to_four_bytes_per_texel() {
    let image = RgbaImage {
        width: 2,
        height: 1,
        pixels: vec![Color { r: 1, g: 2, b: 3, a: 4 }, Color { r: 5, g: 6, b: 7, a: 8 }],
    };
    let buffer = PixelBuffer::from_color_image(&image);
    assert_eq!(buffer.pixels(), &vec![1, 2, 3, 4, 5, 6, 7, 8]);
    assert_eq!(buffer.width(), 2);
    assert_eq!(buffer.height(), 1);
}

#[test]
fn color_image_buffer_length_is_w_h_4() {
    for (w, h) in [(0usize, 0usize), (0, 5), (7, 0), (1, 1), (3, 5), (16, 9)] {
        let buffer = PixelBuffer::from_color_image(&solid(w, h, red()));
        assert_eq!(buffer.pixels().len(), w * h * 4);
        assert_eq!(buffer.width(), w);
        assert_eq!(buffer.height(), h);
    }
}

#[test]
fn zero_sized_color_image_gives_empty_buffer() {
    let buffer = PixelBuffer::from_color_image(&solid(0, 3, red()));
    assert!(buffer.pixels().is_empty());
    assert_eq!(buffer.width(), 0);
    assert_eq!(buffer.height(), 3);
}

#[test]
fn font_image_carries_coverage_in_all_channels() {
    let image = CoverageImage { width: 3, height: 1, coverage: vec![0, 128, 255] };
    let buffer = PixelBuffer::from_font_image(&image);
    assert_eq!(buffer.pixels(), &vec![0, 0, 0, 0, 128, 128, 128, 128, 255, 255, 255, 255]);
    for texel in buffer.pixels().chunks(4) {
        assert_eq!(texel[0], texel[3]);
        assert_eq!(texel[1], texel[3]);
        assert_eq!(texel[2], texel[3]);
    }
}

#[test]
fn font_image_buffer_length_is_w_h_4() {
    let image = CoverageImage { width: 4, height: 3, coverage: vec![9; 12] };
    let buffer = PixelBuffer::from_font_image(&image);
    assert_eq!(buffer.pixels().len(), 4 * 3 * 4);
    assert!(buffer.pixels().iter().all(|b| *b == 9));
}

#[test]
fn image_data_picks_the_matching_expansion() {
    let color = PixelBuffer::from_image_data(&ImageData::Color(solid(1, 1, red())));
    assert_eq!(color.pixels(), &vec![255, 0, 0, 255]);
    let font = PixelBuffer::from_image_data(&ImageData::Font(CoverageImage {
        width: 1,
        height: 1,
        coverage: vec![77],
    }));
    assert_eq!(font.pixels(), &vec![77, 77, 77, 77]);
}

#[test]
fn upload_describes_srgb_rgba8_with_own_dimensions() {
    let buffer = PixelBuffer::from_color_image(&solid(4, 2, red()));
    assert_eq!(buffer.upload(), Ok(srgb(4, 2)));
}

#[test]
fn upload_refuses_a_dimension_beyond_32_bits() {
    let wide = RgbaImage { width: 1usize << 32, height: 0, pixels: vec![] };
    let buffer = PixelBuffer::from_color_image(&wide);
    assert_eq!(buffer.upload(), Err(PainterError::RenderBackendError));
    let tall = RgbaImage { width: 0, height: 1usize << 32, pixels: vec![] };
    assert_eq!(
        PixelBuffer::from_color_image(&tall).upload(),
        Err(PainterError::RenderBackendError)
    );
}

#[test]
fn blit_copies_the_patch_row_by_row() {
    let mut target = PixelBuffer::from_font_image(&CoverageImage {
        width: 4,
        height: 3,
        coverage: vec![0; 12],
    });
    let patch = PixelBuffer::from_color_image(&RgbaImage {
        width: 2,
        height: 2,
        pixels: vec![
            Color { r: 1, g: 2, b: 3, a: 4 },
            Color { r: 5, g: 6, b: 7, a: 8 },
            Color { r: 9, g: 10, b: 11, a: 12 },
            Color { r: 13, g: 14, b: 15, a: 16 },
        ],
    });
    assert_eq!(target.blit(&patch, 1, 1), Ok(()));
    let expected: Vec<u8> = vec![
        0, 0, 0, 0,  0, 0, 0, 0,      0, 0, 0, 0,      0, 0, 0, 0,
        0, 0, 0, 0,  1, 2, 3, 4,      5, 6, 7, 8,      0, 0, 0, 0,
        0, 0, 0, 0,  9, 10, 11, 12,   13, 14, 15, 16,  0, 0, 0, 0,
    ];
    assert_eq!(target.pixels(), &expected);
    assert_eq!(target.width(), 4);
    assert_eq!(target.height(), 3);
}

#[test]
fn blit_into_the_last_corner_fits() {
    let mut target = PixelBuffer::from_color_image(&solid(2, 2, Color { r: 0, g: 0, b: 0, a: 0 }));
    let patch = PixelBuffer::from_color_image(&solid(1, 1, red()));
    assert_eq!(target.blit(&patch, 1, 1), Ok(()));
    assert_eq!(target.pixels(), &vec![0, 0, 0, 0, 0, 0, 0, 0, 0, 0, 0, 0, 255, 0, 0, 255]);
}

#[test]
fn blit_out_of_bounds_is_refused_and_changes_nothing() {
    let mut target = PixelBuffer::from_color_image(&solid(2, 2, Color { r: 9, g: 9, b: 9, a: 9 }));
    let before = target.pixels().clone();
    let patch = PixelBuffer::from_color_image(&solid(2, 1, red()));
    assert_eq!(target.blit(&patch, 1, 0), Err(PainterError::BlitOutOfBounds));
    assert_eq!(target.blit(&patch, 0, 2), Err(PainterError::BlitOutOfBounds));
    assert_eq!(target.blit(&patch, usize::MAX, 0), Err(PainterError::BlitOutOfBounds));
    assert_eq!(target.blit(&patch, 0, usize::MAX), Err(PainterError::BlitOutOfBounds));
    assert_eq!(target.pixels(), &before);
}

#[test]
fn blit_of_an_empty_patch_changes_nothing() {
    let mut target = PixelBuffer::from_color_image(&solid(2, 2, red()));
    let before = target.pixels().clone();
    let patch = PixelBuffer::from_color_image(&solid(0, 0, red()));
    assert_eq!(target.blit(&patch, 2, 2), Ok(()));
    assert_eq!(target.pixels(), &before);
}

#[test]
fn set_then_lookup_round_trip() {
    let mut store = TextureStore::new();
    let id = TextureId::Managed(0);
    let outcome = store.apply_delta(&set(id, solid(4, 4, red())));
    assert_eq!(outcome, Ok(TextureAction::Upload(srgb(4, 4))));
    let handle = store.lookup(id).unwrap();
    assert_eq!(handle.format, TextureFormat::Rgba8UnormSrgb);
    assert_eq!(handle.width, 4);
    assert_eq!(handle.height, 4);
    let buffer = store.buffer(id).unwrap();
    assert_eq!(buffer.pixels().len(), 64);
    assert!(buffer.pixels().chunks(4).all(|t| t == [255, 0, 0, 255]));
}

#[test]
fn free_then_set_leaves_exactly_one_record() {
    let mut store = TextureStore::new();
    let id = TextureId::User(7);
    store.apply_delta(&set(id, solid(2, 2, red()))).unwrap();
    assert_eq!(store.apply_delta(&TextureDelta::Free { id }), Ok(TextureAction::Release));
    assert_eq!(store.len(), 0);
    assert_eq!(store.lookup(id), Err(PainterError::UnknownTexture));
    assert_eq!(
        store.apply_delta(&set(id, solid(3, 1, red()))),
        Ok(TextureAction::Upload(srgb(3, 1)))
    );
    assert_eq!(store.len(), 1);
    assert_eq!(store.lookup(id), Ok(srgb(3, 1)));
}

#[test]
fn set_on_a_live_id_replaces_its_record() {
    let mut store = TextureStore::new();
    let id = TextureId::Managed(3);
    store.apply_delta(&set(id, solid(2, 2, red()))).unwrap();
    store.apply_delta(&set(id, solid(1, 5, Color { r: 1, g: 2, b: 3, a: 4 }))).unwrap();
    assert_eq!(store.len(), 1);
    assert_eq!(store.lookup(id), Ok(srgb(1, 5)));
    assert_eq!(store.buffer(id).unwrap().pixels()[..4], [1, 2, 3, 4]);
}

#[test]
fn managed_and_user_ids_are_different_textures() {
    let mut store = TextureStore::new();
    store.apply_delta(&set(TextureId::Managed(1), solid(1, 1, red()))).unwrap();
    assert_eq!(store.lookup(TextureId::User(1)), Err(PainterError::UnknownTexture));
    store.apply_delta(&set(TextureId::User(1), solid(2, 2, red()))).unwrap();
    assert_eq!(store.len(), 2);
    assert_eq!(store.lookup(TextureId::Managed(1)), Ok(srgb(1, 1)));
    assert_eq!(store.lookup(TextureId::User(1)), Ok(srgb(2, 2)));
}

#[test]
fn freeing_an_unknown_id_is_a_no_op() {
    let mut store = TextureStore::new();
    store.apply_delta(&set(TextureId::Managed(1), solid(1, 1, red()))).unwrap();
    assert_eq!(
        store.apply_delta(&TextureDelta::Free { id: TextureId::Managed(2) }),
        Ok(TextureAction::Nothing)
    );
    assert_eq!(store.len(), 1);
}

#[test]
fn regional_set_before_its_base_is_unknown_texture() {
    let mut store = TextureStore::new();
    let id = TextureId::Managed(4);
    let patch =
        TextureDelta::SetImage { id, image: ImageData::Color(solid(1, 1, red())), pos: Some((0, 0)) };
    assert_eq!(store.apply_delta(&patch), Err(PainterError::UnknownTexture));
    assert_eq!(store.len(), 0);
    let outcomes = store.apply_all(&vec![patch, set(id, solid(2, 2, red()))]);
    assert_eq!(
        outcomes,
        vec![Err(PainterError::UnknownTexture), Ok(TextureAction::Upload(srgb(2, 2)))]
    );
    assert_eq!(store.lookup(id), Ok(srgb(2, 2)));
}

#[test]
fn regional_set_updates_the_live_texture() {
    let mut store = TextureStore::new();
    let id = TextureId::Managed(5);
    let base = ImageData::Font(CoverageImage { width: 2, height: 2, coverage: vec![0; 4] });
    let patch = ImageData::Font(CoverageImage { width: 1, height: 1, coverage: vec![200] });
    let outcomes = store.apply_all(&vec![
        TextureDelta::SetImage { id, image: base, pos: None },
        TextureDelta::SetImage { id, image: patch, pos: Some((1, 0)) },
    ]);
    assert_eq!(
        outcomes,
        vec![Ok(TextureAction::Upload(srgb(2, 2))), Ok(TextureAction::Upload(srgb(2, 2)))]
    );
    assert_eq!(
        store.buffer(id).unwrap().pixels(),
        &vec![0, 0, 0, 0, 200, 200, 200, 200, 0, 0, 0, 0, 0, 0, 0, 0]
    );
    assert_eq!(store.len(), 1);
}

#[test]
fn regional_set_outside_the_texture_is_dropped() {
    let mut store = TextureStore::new();
    let id = TextureId::Managed(6);
    store.apply_delta(&set(id, solid(2, 2, red()))).unwrap();
    let before = store.buffer(id).unwrap().pixels().clone();
    let patch = TextureDelta::SetImage {
        id,
        image: ImageData::Color(solid(2, 2, Color { r: 0, g: 0, b: 0, a: 0 })),
        pos: Some((1, 1)),
    };
    assert_eq!(store.apply_delta(&patch), Err(PainterError::BlitOutOfBounds));
    assert_eq!(store.buffer(id).unwrap().pixels(), &before);
    assert_eq!(store.lookup(id), Ok(srgb(2, 2)));
}

#[test]
fn set_that_cannot_be_uploaded_leaves_the_store_alone() {
    let mut store = TextureStore::new();
    let id = TextureId::Managed(8);
    store.apply_delta(&set(id, solid(2, 2, red()))).unwrap();
    let wide = RgbaImage { width: 1usize << 32, height: 0, pixels: vec![] };
    assert_eq!(store.apply_delta(&set(id, wide)), Err(PainterError::RenderBackendError));
    assert_eq!(store.lookup(id), Ok(srgb(2, 2)));
}

#[test]
fn deltas_are_applied_in_arrival_order() {
    let mut store = TextureStore::new();
    let id = TextureId::Managed(9);
    let outcomes = store.apply_all(&vec![
        set(id, solid(1, 1, red())),
        TextureDelta::Free { id },
        TextureDelta::Free { id },
        set(id, solid(5, 6, red())),
    ]);
    assert_eq!(
        outcomes,
        vec![
            Ok(TextureAction::Upload(srgb(1, 1))),
            Ok(TextureAction::Release),
            Ok(TextureAction::Nothing),
            Ok(TextureAction::Upload(srgb(5, 6))),
        ]
    );
    assert_eq!(store.len(), 1);
    assert_eq!(store.lookup(id), Ok(srgb(5, 6)));
}

#[test]
fn lookup_in_an_empty_store_is_unknown_texture() {
    let store = TextureStore::new();
    assert_eq!(store.len(), 0);
    assert_eq!(store.lookup(TextureId::Managed(0)), Err(PainterError::UnknownTexture));
    assert!(store.buffer(TextureId::Managed(0)).is_none());
}

#[test]
fn malformed_image_is_dropped_as_a_backend_failure() {
    let mut store = TextureStore::new();
    let id = TextureId::Managed(11);
    store.apply_delta(&set(id, solid(2, 2, red()))).unwrap();
    let short = RgbaImage { width: 2, height: 2, pixels: vec![red(); 3] };
    assert!(!short.is_wf());
    assert_eq!(store.apply_delta(&set(id, short.clone())), Err(PainterError::RenderBackendError));
    assert_eq!(store.lookup(id), Ok(srgb(2, 2)));
    assert_eq!(store.buffer(id).unwrap().pixels().len(), 16);
    let patch =
        TextureDelta::SetImage { id, image: ImageData::Color(short.clone()), pos: Some((0, 0)) };
    assert_eq!(store.apply_delta(&patch), Err(PainterError::RenderBackendError));
    let elsewhere = TextureDelta::SetImage {
        id: TextureId::Managed(12),
        image: ImageData::Color(short),
        pos: Some((0, 0)),
    };
    assert_eq!(store.apply_delta(&elsewhere), Err(PainterError::UnknownTexture));
    let overflowing = CoverageImage { width: usize::MAX, height: 2, coverage: vec![] };
    assert!(!overflowing.is_wf());
    assert_eq!(
        store.apply_delta(&TextureDelta::SetImage {
            id,
            image: ImageData::Font(overflowing),
            pos: None
        }),
        Err(PainterError::RenderBackendError)
    );
    assert_eq!(store.len(), 1);
}

#[test]
fn well_formed_images_are_recognised() {
    assert!(solid(3, 2, red()).is_wf());
    assert!(solid(0, 0, red()).is_wf());
    assert!(CoverageImage { width: 2, height: 2, coverage: vec![1, 2, 3, 4] }.is_wf());
    assert!(!CoverageImage { width: 2, height: 2, coverage: vec![1, 2, 3, 4, 5] }.is_wf());
    assert!(ImageData::Color(solid(1, 1, red())).is_wf());
    assert!(fills_exactly(4, 4, 16));
    assert!(!fills_exactly(4, 4, 15));
    assert!(!fills_exactly(usize::MAX, usize::MAX, 1));
    assert!(fills_exactly(0, usize::MAX, 0));
}

#[test]
fn store_group_reports_sets_then_frees() {
    let mut store = TextureStore::new();
    let id = TextureId::Managed(20);
    let group = TexturesDelta {
        set: vec![
            (id, ImageDelta { image: ImageData::Color(solid(2, 2, red())), pos: None }),
            (
                id,
                ImageDelta {
                    image: ImageData::Color(solid(1, 1, Color { r: 1, g: 2, b: 3, a: 4 })),
                    pos: Some((1, 1)),
                },
            ),
            (
                TextureId::Managed(21),
                ImageDelta { image: ImageData::Color(solid(1, 1, red())), pos: Some((0, 0)) },
            ),
        ],
        free: vec![TextureId::Managed(21)],
    };
    let mut outcomes = vec![Ok(TextureAction::Nothing)];
    store.apply_group(&group, &mut outcomes);
    assert_eq!(
        outcomes,
        vec![
            Ok(TextureAction::Nothing),
            Ok(TextureAction::Upload(srgb(2, 2))),
            Ok(TextureAction::Upload(srgb(2, 2))),
            Err(PainterError::UnknownTexture),
            Ok(TextureAction::Nothing),
        ]
    );
    assert_eq!(store.buffer(id).unwrap().pixels()[12..], [1, 2, 3, 4]);
    assert_eq!(store.buffer(id).unwrap().pixels()[..4], [255, 0, 0, 255]);
}

#[test]
fn set_image_and_free_report_like_their_deltas() {
    let mut store = TextureStore::new();
    let id = TextureId::User(30);
    assert_eq!(
        store.set_image(id, &ImageData::Color(solid(3, 2, red())), None),
        Ok(TextureAction::Upload(srgb(3, 2)))
    );
    assert_eq!(store.free(id), Ok(TextureAction::Release));
    assert_eq!(store.free(id), Ok(TextureAction::Nothing));
    assert_eq!(store.len(), 0);
}

#[test]
fn a_new_store_holds_no_record() {
    let store = TextureStore::new();
    assert_eq!(store.len(), 0);
    assert!(store.buffer(TextureId::User(0)).is_none());
    assert_eq!(store.lookup(TextureId::User(0)), Err(PainterError::UnknownTexture));
}
