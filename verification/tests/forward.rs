use paper_experiments::buffers::{BufferKind, SizeMismatch};
use paper_experiments::geometry::{FrameSize, Indicization};
use paper_experiments::rgba_to_yuv::{bgr_to_yuv, ConversionContext};

/// Sixteen pixels with no two alike, alpha counting up.
fn varied_frame() -> Vec<u8> {
    (0..16u32)
        .flat_map(|i| {
            [(i * 13 % 256) as u8, ((i * 29 + 7) % 256) as u8, ((i * 53 + 11) % 256) as u8, i as u8]
        })
        .collect()
}

fn noise(len: usize, seed: u32) -> Vec<u8> {
    let mut state = seed;
    (0..len)
        .map(|_| {
            state = state.wrapping_mul(1_664_525).wrapping_add(1_013_904_223);
            (state >> 24) as u8
        })
        .collect()
}

#[test]
fn four_red_pixels_end_to_end() {
    assert!(FrameSize::supported(2, 2));
    let raw = [0u8, 0, 255, 255, 0, 0, 255, 255, 0, 0, 255, 255, 0, 0, 255, 255];
    let mut y = [0u8; 4];
    let mut cb = [0u8; 1];
    let mut cr = [0u8; 1];
    let mut context = ConversionContext::new(2, 2);
    assert_eq!(context.bgra_to_yuv_separate(&raw, &mut y, &mut cb, &mut cr), Ok(()));
    assert_eq!(y, [76, 76, 76, 76]);
    assert_eq!(cb, [84]);
    assert_eq!(cr, [255]);
}

#[test]
fn linear_average_of_a_varied_frame() {
    let raw = varied_frame();
    let mut y = vec![0u8; 16];
    let mut cb = vec![0u8; 4];
    let mut cr = vec![0u8; 4];
    let mut context = ConversionContext::new(4, 4);
    assert_eq!(context.bgra_to_yuv_separate(&raw, &mut y, &mut cb, &mut cr), Ok(()));
    assert_eq!(y, vec![7, 41, 76, 110, 144, 102, 136, 171, 205, 89, 47, 81, 116, 150, 184, 142]);
    assert_eq!(cb, vec![105, 89, 137, 142]);
    assert_eq!(cr, vec![150, 107, 144, 128]);
}

#[test]
fn spatial_average_of_a_varied_frame() {
    let raw = varied_frame();
    let mut y = vec![0u8; 16];
    let mut cb = vec![0u8; 4];
    let mut cr = vec![0u8; 4];
    let mut context = ConversionContext::new(4, 4);
    context.set_indicization(Indicization::Squared);
    assert_eq!(context.bgra_to_yuv_separate(&raw, &mut y, &mut cb, &mut cr), Ok(()));
    assert_eq!(y, vec![7, 41, 76, 110, 144, 102, 136, 171, 205, 89, 47, 81, 116, 150, 184, 142]);
    assert_eq!(cb, vec![103, 90, 125, 154]);
    assert_eq!(cr, vec![131, 126, 158, 115]);
}

#[test]
fn chroma_is_the_truncated_mean_of_four_samples() {
    let raw = noise(4 * 8 * 6, 5);
    let pixel = |i: usize| bgr_to_yuv(raw[4 * i], raw[4 * i + 1], raw[4 * i + 2]);
    let mean = |members: [usize; 4], pick: fn((u8, u8, u8)) -> u8| {
        (members.iter().map(|i| pick(pixel(*i)) as u32).sum::<u32>() / 4) as u8
    };

    let mut y = vec![0u8; 48];
    let mut cb = vec![0u8; 12];
    let mut cr = vec![0u8; 12];
    let mut context = ConversionContext::new(8, 6);
    assert_eq!(context.bgra_to_yuv_separate(&raw, &mut y, &mut cb, &mut cr), Ok(()));
    for i in 0..48 {
        assert_eq!(y[i], pixel(i).0);
    }
    for j in 0..12 {
        let members = [4 * j, 4 * j + 1, 4 * j + 2, 4 * j + 3];
        assert_eq!(cb[j], mean(members, |p| p.1));
        assert_eq!(cr[j], mean(members, |p| p.2));
    }

    context.set_indicization(Indicization::Squared);
    assert_eq!(context.bgra_to_yuv_separate(&raw, &mut y, &mut cb, &mut cr), Ok(()));
    for i in 0..48 {
        assert_eq!(y[i], pixel(i).0);
    }
    for block_row in 0..3 {
        for block_column in 0..4 {
            let top = 2 * block_row * 8 + 2 * block_column;
            let members = [top, top + 1, top + 8, top + 9];
            assert_eq!(cb[block_row * 4 + block_column], mean(members, |p| p.1));
            assert_eq!(cr[block_row * 4 + block_column], mean(members, |p| p.2));
        }
    }
}

#[test]
fn the_mean_truncates() {
    // Blue-difference chroma of the four pixels: 128, 128, 128 and 131; the mean
    // is 128.75.
    let mut raw = [100u8, 100, 100, 255].repeat(4);
    raw[12] = 106;
    assert_eq!(bgr_to_yuv(106, 100, 100).1, 131);
    let mut y = [0u8; 4];
    let mut cb = [0u8; 1];
    let mut cr = [0u8; 1];
    let mut context = ConversionContext::new(2, 2);
    assert_eq!(context.bgra_to_yuv_separate(&raw, &mut y, &mut cb, &mut cr), Ok(()));
    assert_eq!(cb, [128]);
}

#[test]
fn alpha_of_the_source_does_not_matter() {
    let raw = varied_frame();
    let mut opaque = raw.clone();
    for i in 0..16 {
        opaque[4 * i + 3] = 255;
    }
    let mut context = ConversionContext::new(4, 4);
    let (mut y1, mut cb1, mut cr1) = (vec![0u8; 16], vec![0u8; 4], vec![0u8; 4]);
    let (mut y2, mut cb2, mut cr2) = (vec![0u8; 16], vec![0u8; 4], vec![0u8; 4]);
    assert_eq!(context.bgra_to_yuv_separate(&raw, &mut y1, &mut cb1, &mut cr1), Ok(()));
    assert_eq!(context.bgra_to_yuv_separate(&opaque, &mut y2, &mut cb2, &mut cr2), Ok(()));
    assert_eq!((y1, cb1, cr1), (y2, cb2, cr2));
}

#[test]
fn a_context_keeps_nothing_of_the_frame_before() {
    let first = noise(64, 77);
    let second = varied_frame();
    for strategy in [Indicization::Vectorized, Indicization::Squared] {
        let mut used = ConversionContext::new(4, 4);
        used.set_indicization(strategy);
        let mut fresh = ConversionContext::new(4, 4);
        fresh.set_indicization(strategy);
        let (mut y, mut cb, mut cr) = (vec![0u8; 16], vec![0u8; 4], vec![0u8; 4]);
        assert_eq!(used.bgra_to_yuv_separate(&first, &mut y, &mut cb, &mut cr), Ok(()));
        assert_eq!(used.bgra_to_yuv_separate(&second, &mut y, &mut cb, &mut cr), Ok(()));
        let (mut y2, mut cb2, mut cr2) = (vec![1u8; 16], vec![2u8; 4], vec![3u8; 4]);
        assert_eq!(fresh.bgra_to_yuv_separate(&second, &mut y2, &mut cb2, &mut cr2), Ok(()));
        assert_eq!((y, cb, cr), (y2, cb2, cr2));
    }
}

#[test]
fn forward_refuses_wrong_lengths_and_writes_nothing() {
    let mut context = ConversionContext::new(4, 2);
    let (mut y, mut cb, mut cr) = (vec![1u8; 8], vec![2u8; 2], vec![3u8; 2]);
    assert_eq!(
        context.bgra_to_yuv_separate(&[0; 28], &mut y, &mut cb, &mut cr),
        Err(SizeMismatch { buffer: BufferKind::RawFrame, expected: 32, actual: 28 })
    );
    let mut short = vec![1u8; 7];
    assert_eq!(
        context.bgra_to_yuv_separate(&[0; 32], &mut short, &mut cb, &mut cr),
        Err(SizeMismatch { buffer: BufferKind::YChannel, expected: 8, actual: 7 })
    );
    let mut long = vec![2u8; 8];
    assert_eq!(
        context.bgra_to_yuv_separate(&[0; 32], &mut y, &mut long, &mut cr),
        Err(SizeMismatch { buffer: BufferKind::CbChannel, expected: 2, actual: 8 })
    );
    let mut none: Vec<u8> = Vec::new();
    assert_eq!(
        context.bgra_to_yuv_separate(&[0; 32], &mut y, &mut cb, &mut none),
        Err(SizeMismatch { buffer: BufferKind::CrChannel, expected: 2, actual: 0 })
    );
    assert_eq!((y, cb, cr), (vec![1u8; 8], vec![2u8; 2], vec![3u8; 2]));
    assert_eq!(short, vec![1u8; 7]);
    assert_eq!(long, vec![2u8; 8]);
}

#[test]
fn a_context_works_again_after_a_refusal() {
    let mut context = ConversionContext::new(2, 2);
    let (mut y, mut cb, mut cr) = (vec![0u8; 4], vec![0u8; 1], vec![0u8; 1]);
    assert!(context.bgra_to_yuv_separate(&[0; 15], &mut y, &mut cb, &mut cr).is_err());
    let raw = [255u8, 0, 0, 0].repeat(4);
    assert_eq!(context.bgra_to_yuv_separate(&raw, &mut y, &mut cb, &mut cr), Ok(()));
    assert_eq!((y, cb, cr), (vec![29u8; 4], vec![255u8], vec![107u8]));
}

#[test]
fn an_empty_frame_has_empty_planes() {
    let mut context = ConversionContext::new(0, 2);
    let (mut y, mut cb, mut cr): (Vec<u8>, Vec<u8>, Vec<u8>) = (vec![], vec![], vec![]);
    assert_eq!(context.bgra_to_yuv_separate(&[], &mut y, &mut cb, &mut cr), Ok(()));
    context.set_indicization(Indicization::Squared);
    assert_eq!(context.bgra_to_yuv_separate(&[], &mut y, &mut cb, &mut cr), Ok(()));
}
