//! Image checks, region lengths, padding and filler.

use ch559::chunk::chunk_size;
use ch559::fill::{append_fill, fill, filler_byte};
use ch559::image::{
    check_source, lay_over, make_filler, pad_image, region_length, runs_over_data, Source,
    CODE_LIMIT, CODE_SIZE,
};
use ch559::Error;

fn file(length: usize) -> Source {
    Source { is_file: true, length, content: (0..length).map(|i| i as u8).collect() }
}

#[test]
fn region_sizes() {
    assert_eq!(CODE_SIZE, 0xf400);
    assert_eq!(CODE_LIMIT, 0xf000);
}

#[test]
fn data_image_must_fill_the_region_unless_padded() {
    assert_eq!(check_source(&file(0x400), true, false), Ok(()));
    assert_eq!(check_source(&file(0x3ff), true, false), Err(Error::FileSize));
    assert_eq!(check_source(&file(0), true, false), Err(Error::FileSize));
    assert_eq!(check_source(&file(0x401), true, false), Err(Error::FileSize));
    assert_eq!(check_source(&file(0x400), true, true), Ok(()));
    assert_eq!(check_source(&file(0), true, true), Ok(()));
    assert_eq!(check_source(&file(0x3ff), true, true), Ok(()));
    assert_eq!(check_source(&file(0x401), true, true), Err(Error::TooLargeDataSize));
}

#[test]
fn code_image_may_reach_the_end_of_the_flash() {
    assert_eq!(check_source(&file(0), false, false), Ok(()));
    assert_eq!(check_source(&file(0xf000), false, false), Ok(()));
    assert_eq!(check_source(&file(0xf100), false, false), Ok(()));
    assert_eq!(check_source(&file(0xf400), false, true), Ok(()));
    assert_eq!(check_source(&file(0xf401), false, false), Err(Error::TooLargeCodeSize));
    assert_eq!(check_source(&file(0xf401), false, true), Err(Error::TooLargeCodeSize));
}

#[test]
fn what_is_not_a_regular_file_is_refused_first() {
    let source = Source { is_file: false, length: 0xfffff, content: vec![] };
    assert_eq!(check_source(&source, true, false), Err(Error::InvalidFile));
    assert_eq!(check_source(&source, false, true), Err(Error::InvalidFile));
}

#[test]
fn short_content_is_an_unexpected_end() {
    let source = Source { is_file: true, length: 0x100, content: vec![0; 0xff] };
    assert_eq!(check_source(&source, false, false), Err(Error::Eof));
    let source = Source { is_file: true, length: 0x500, content: vec![0; 0xff] };
    assert_eq!(check_source(&source, true, true), Err(Error::TooLargeDataSize));
    let source = Source { is_file: true, length: 0x100, content: vec![0; 0x101] };
    assert_eq!(check_source(&source, false, false), Ok(()));
}

#[test]
fn region_length_is_the_image_or_the_region() {
    assert_eq!(region_length(0x123, false, false), 0x123);
    assert_eq!(region_length(0xf100, false, false), 0xf100);
    assert_eq!(region_length(0x400, true, false), 0x400);
    assert_eq!(region_length(0, true, true), 0x400);
    assert_eq!(region_length(0x400, true, true), 0x400);
    assert_eq!(region_length(0, false, true), 0xf000);
    assert_eq!(region_length(0xf000, false, true), 0xf000);
    assert_eq!(region_length(0xf001, false, true), 0xf400);
    assert_eq!(region_length(0xf400, false, true), 0xf400);
}

#[test]
fn only_code_runs_over_the_data_region() {
    assert!(!runs_over_data(0xf000, false));
    assert!(runs_over_data(0xf001, false));
    assert!(runs_over_data(0xf400, false));
    assert!(!runs_over_data(0xf400, true));
    assert!(!runs_over_data(0, false));
}

#[test]
fn filler_of_known_seeds() {
    assert_eq!(fill(1, 8), vec![66, 30, 142, 118, 2, 12, 114, 88]);
    assert_eq!(fill(2, 8), vec![197, 85, 184, 177, 209, 157, 5, 9]);
    assert_eq!(fill(0, 8), vec![245, 37, 242, 85, 246, 193, 31, 11]);
    assert_eq!(fill(-5, 8), vec![169, 167, 203, 253, 186, 170, 66, 213]);
    assert_eq!(fill(1, 0), Vec::<u8>::new());
}

#[test]
fn filler_is_the_low_byte_of_the_generator() {
    for seed in [1i64, 42, -1, i64::MAX, i64::MIN] {
        let mut generator = srand::Rand::new(srand::RngSource::new(seed));
        let expected: Vec<u8> = (0..300).map(|_| generator.uint32() as u8).collect();
        assert_eq!(fill(seed, 300), expected);
    }
}

#[test]
fn filler_byte_is_the_low_byte() {
    assert_eq!(filler_byte(2596996162), 66);
    assert_eq!(filler_byte(0x1234_56ff), 0xff);
    assert_eq!(filler_byte(0x100), 0);
    assert_eq!(filler_byte(0), 0);
    assert_eq!(filler_byte(u32::MAX), 0xff);
}

#[test]
fn image_is_laid_before_its_filler() {
    let content = vec![1, 2, 3, 4, 5];
    assert_eq!(lay_over(&content, 3, &vec![9, 8]), vec![1, 2, 3, 9, 8]);
    assert_eq!(lay_over(&content, 5, &vec![]), content);
    assert_eq!(lay_over(&content, 0, &vec![7]), vec![7]);
    assert_eq!(lay_over(&vec![], 0, &vec![]), Vec::<u8>::new());
}

#[test]
fn filler_without_fullfill_is_blank() {
    assert_eq!(make_filler(3, false, 1), vec![0xff, 0xff, 0xff]);
    assert_eq!(make_filler(0, false, 1), Vec::<u8>::new());
    assert_eq!(make_filler(4, true, 1), vec![66, 30, 142, 118]);
}

#[test]
fn filler_starts_anew_each_time() {
    let mut sink = vec![1, 2, 3];
    append_fill(&mut sink, 1, 2);
    assert_eq!(sink, vec![1, 2, 3, 66, 30]);
    append_fill(&mut sink, 1, 3);
    assert_eq!(sink, vec![1, 2, 3, 66, 30, 66, 30, 142]);
    assert_eq!(fill(9, 100)[..40], fill(9, 40)[..]);
}

#[test]
fn filler_differs_between_seeds() {
    assert_ne!(fill(1, 16), fill(2, 16));
    assert_ne!(fill(1234, 64), fill(1235, 64));
}

#[test]
fn image_without_padding_is_the_file() {
    let source = file(0x123);
    assert_eq!(pad_image(&source, false, false, 1), source.content);
    let longer = Source { is_file: true, length: 4, content: vec![1, 2, 3, 4, 5, 6] };
    assert_eq!(pad_image(&longer, false, false, 1), vec![1, 2, 3, 4]);
    assert_eq!(pad_image(&file(0), false, false, 1), Vec::<u8>::new());
}

#[test]
fn padded_image_is_the_file_then_filler() {
    let source = file(0x3f8);
    let image = pad_image(&source, true, true, 1);
    assert_eq!(image.len(), 0x400);
    assert_eq!(&image[..0x3f8], &source.content[..]);
    assert_eq!(&image[0x3f8..], &[66, 30, 142, 118, 2, 12, 114, 88]);

    let image = pad_image(&file(0), false, true, 2);
    assert_eq!(image.len(), 0xf000);
    assert_eq!(image, fill(2, 0xf000));

    let image = pad_image(&file(0xf001), false, true, 2);
    assert_eq!(image.len(), 0xf400);
    assert_eq!(&image[0xf001..], &fill(2, 0x3ff)[..]);

    let full = file(0x400);
    assert_eq!(pad_image(&full, true, true, 7), full.content);
}

#[test]
fn chunk_sizes_of_the_data_region() {
    let mut offset = 0;
    let mut sizes = Vec::new();
    while offset < 0x400 {
        let size = chunk_size(0x400, offset);
        sizes.push(size);
        offset += size;
    }
    assert_eq!(offset, 0x400);
    assert_eq!(sizes.len(), 19);
    assert!(sizes[..18].iter().all(|&size| size == 0x38));
    assert_eq!(sizes[18], 0x10);
    assert_eq!(chunk_size(0x400, 0x400), 0);
    assert_eq!(chunk_size(0x38, 0), 0x38);
    assert_eq!(chunk_size(0x39, 0), 0x38);
    assert_eq!(chunk_size(1, 0), 1);
}
