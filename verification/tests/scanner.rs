use exam_scanner::boxes::{
    boxes_on_page, count_binary_on_page, first_unsupported_on_page, BoxSpec, Kind,
};
use exam_scanner::geometry::IntRect;
use exam_scanner::hist_series::{startup_hist_serie, SeriesError};
use exam_scanner::histogram::{
    binary_box_analysis, histogram, index_quartile, AnalysisError, Answer, HIST_BINS,
};
use exam_scanner::image::{
    channel_name, depth_name, image_is_very_big, ImageInfo, DEPTH_16S, DEPTH_64F, DEPTH_8U,
};
use exam_scanner::qr::{check_qr_data, inspect_qr_data, ExamMetadata, QRData, QrFindings};
use exam_scanner::text::{
    image_description_string, pretty_hash, qr_description_string, short_pretty_hash,
    standard_rect_description, trace_file_name,
};

#[test]
fn pretty_hash_renders_two_lowercase_digits_per_byte() {
    assert_eq!(pretty_hash(&vec![0x00, 0x0f, 0xab, 0xff, 0x10]), "000fabff10");
    assert_eq!(pretty_hash(&vec![]), "");
}

#[test]
fn pretty_hash_of_distinct_hashes_differ() {
    assert_ne!(pretty_hash(&vec![0x01, 0x10]), pretty_hash(&vec![0x11, 0x00]));
}

#[test]
fn short_pretty_hash_keeps_six_digits_and_full_length() {
    assert_eq!(short_pretty_hash(&vec![0xde, 0xad, 0xbe, 0xef]), "deadbe[8]");
    assert_eq!(short_pretty_hash(&vec![1, 2, 3]), "010203[6]");
    let long: Vec<u8> = (0..32).collect();
    assert_eq!(short_pretty_hash(&long), "000102[64]");
}

#[test]
fn qr_description_lists_hash_id_and_page() {
    let qr = QRData { hash: vec![0xca, 0xfe], id: 1234, page: 3 };
    assert_eq!(qr_description_string(&qr), "qr_data(cafe, exam ID 1234, page 3)");
    let zero = QRData { hash: vec![], id: 0, page: 0 };
    assert_eq!(qr_description_string(&zero), "qr_data(, exam ID 0, page 0)");
}

#[test]
fn standard_rect_description_gives_top_left_corner() {
    let r = IntRect { x: 12, y: -340, width: 5, height: 6 };
    assert_eq!(standard_rect_description(&r), "r(12:-340)");
    let m = IntRect { x: i32::MIN, y: i32::MAX, width: 0, height: 0 };
    assert_eq!(standard_rect_description(&m), "r(-2147483648:2147483647)");
}

#[test]
fn image_description_names_layout_and_depth() {
    let gray = ImageInfo { width: 2480, height: 3508, channels: 1, depth: DEPTH_8U };
    assert_eq!(image_description_string(&gray), "image(2480x3508, gray 8 bits)");
    let odd = ImageInfo { width: 0, height: 7, channels: 2, depth: 9 };
    assert_eq!(image_description_string(&odd), "image(0x7, unknown unknown)");
    assert_eq!(channel_name(3), "rgb");
    assert_eq!(channel_name(4), "rgba");
    assert_eq!(depth_name(DEPTH_16S), "16 bits (signed)");
    assert_eq!(depth_name(DEPTH_64F), "floating (64)");
    assert_eq!(depth_name(5), "floating (32)");
}

#[test]
fn trace_files_live_in_trace_folder() {
    assert_eq!(trace_file_name("cleaned"), "trace/cleaned.jpg");
    assert_eq!(trace_file_name(""), "trace/.jpg");
}

#[test]
fn very_big_images_are_those_with_a_side_over_5000() {
    assert!(!image_is_very_big(5000, 5000));
    assert!(image_is_very_big(5001, 10));
    assert!(image_is_very_big(10, 5001));
    assert!(!image_is_very_big(-7, 0));
}

fn meta() -> ExamMetadata {
    ExamMetadata { hash: vec![1, 2, 3], id: 42, pages: 4 }
}

#[test]
fn qr_payload_of_the_exam_is_accepted_unchanged() {
    let qr = QRData { hash: vec![1, 2, 3], id: 42, page: 4 };
    let d = check_qr_data(&meta(), qr).unwrap();
    assert_eq!(d.hash, vec![1, 2, 3]);
    assert_eq!(d.id, 42);
    assert_eq!(d.page, 4);
}

#[test]
fn qr_payload_with_wrong_hash_is_rejected() {
    let qr = QRData { hash: vec![1, 2], id: 42, page: 1 };
    let f = check_qr_data(&meta(), qr).unwrap_err();
    assert_eq!(f, QrFindings { hash_matches: false, id_matches: true, page_in_range: true });
}

#[test]
fn qr_payload_with_every_check_failing_reports_all() {
    let qr = QRData { hash: vec![9, 2, 3], id: 41, page: 0 };
    let f = inspect_qr_data(&meta(), &qr);
    assert_eq!(f, QrFindings { hash_matches: false, id_matches: false, page_in_range: false });
    assert!(check_qr_data(&meta(), qr).is_err());
}

#[test]
fn qr_page_past_the_last_is_rejected() {
    let qr = QRData { hash: vec![1, 2, 3], id: 42, page: 5 };
    let f = check_qr_data(&meta(), qr).unwrap_err();
    assert_eq!(f, QrFindings { hash_matches: true, id_matches: true, page_in_range: false });
}

#[test]
fn histogram_counts_each_level_and_all_pixels() {
    let pixels: Vec<u8> = vec![0, 255, 7, 7, 7, 128, 0];
    let h = histogram(&pixels);
    assert_eq!(h.len(), HIST_BINS);
    assert_eq!(h[0], 2);
    assert_eq!(h[7], 3);
    assert_eq!(h[128], 1);
    assert_eq!(h[255], 1);
    assert_eq!(h[1], 0);
    assert_eq!(h.iter().sum::<u64>(), pixels.len() as u64);
}

#[test]
fn histogram_of_no_pixels_is_all_zero() {
    let h = histogram(&[]);
    assert_eq!(h.len(), 256);
    assert!(h.iter().all(|&c| c == 0));
}

#[test]
fn quartile_index_is_first_bin_reaching_the_share() {
    let h: Vec<u64> = vec![1, 1, 1, 1];
    assert_eq!(index_quartile(&h, 1, 2), Some(1));
    assert_eq!(index_quartile(&h, 1, 4), Some(0));
    assert_eq!(index_quartile(&h, 3, 4), Some(2));
    assert_eq!(index_quartile(&h, 1, 1), Some(3));
    assert_eq!(index_quartile(&h, 0, 1), Some(0));
    let skewed: Vec<u64> = vec![0, 0, 5, 0, 1];
    assert_eq!(index_quartile(&skewed, 1, 2), Some(2));
    assert_eq!(index_quartile(&skewed, 1, 1), Some(4));
}

#[test]
fn quartile_of_empty_histogram_is_none() {
    assert_eq!(index_quartile(&[0, 0, 0], 1, 2), None);
    assert_eq!(index_quartile(&[], 1, 2), None);
}

#[test]
fn quartile_index_grows_with_the_share() {
    let h: Vec<u64> = vec![3, 0, 2, 9, 1, 4];
    let mut last = 0;
    for num in 0..=10u64 {
        let i = index_quartile(&h, num, 10).unwrap();
        assert!(i >= last);
        last = i;
    }
}

fn box_of(dark: usize, light: usize) -> Vec<u8> {
    let mut p = vec![30u8; dark];
    p.extend(vec![230u8; light]);
    p
}

#[test]
fn box_with_dark_median_is_checked() {
    let h = histogram(&box_of(60, 40));
    assert_eq!(binary_box_analysis(&h), Ok(Answer::Binary(true)));
}

#[test]
fn box_with_light_median_is_blank() {
    let h = histogram(&box_of(40, 60));
    assert_eq!(binary_box_analysis(&h), Ok(Answer::Binary(false)));
}

#[test]
fn box_threshold_is_level_142() {
    assert_eq!(binary_box_analysis(&histogram(&[142, 142, 250])), Ok(Answer::Binary(true)));
    assert_eq!(binary_box_analysis(&histogram(&[143, 143, 0])), Ok(Answer::Binary(false)));
    assert_eq!(binary_box_analysis(&histogram(&[10, 200])), Ok(Answer::Binary(true)));
}

#[test]
fn box_without_pixels_has_no_answer() {
    assert_eq!(binary_box_analysis(&histogram(&[])), Err(AnalysisError::EmptyBox));
}

#[test]
fn hist_series_fills_rows_top_to_bottom() {
    let mut s = startup_hist_serie(100, 1, 3).unwrap();
    assert_eq!(s.canvas_rows(), 300);
    assert_eq!(s.canvas_cols(), 356);
    let mut ys = Vec::new();
    while let Some((src, hist)) = s.slot() {
        assert_eq!(src, IntRect { x: 0, y: src.y, width: 100, height: 100 });
        assert_eq!(hist, IntRect { x: 100, y: src.y, width: 256, height: 100 });
        ys.push(src.y);
        s.advance();
    }
    assert_eq!(ys, vec![0, 100, 200]);
    assert_eq!(s.next_row(), 3);
    assert_eq!(s.slot(), None);
}

#[test]
fn hist_series_with_no_rows_has_no_slot() {
    let s = startup_hist_serie(100, 1, 0).unwrap();
    assert_eq!(s.canvas_rows(), 0);
    assert_eq!(s.slot(), None);
}

#[test]
fn hist_series_rejects_negative_canvas() {
    assert_eq!(startup_hist_serie(-1, 1, 2).err(), Some(SeriesError::NegativeCanvas));
    assert_eq!(startup_hist_serie(10, -1, 2).err(), Some(SeriesError::NegativeCanvas));
    assert_eq!(startup_hist_serie(10, 1, -2).err(), Some(SeriesError::NegativeCanvas));
}

#[test]
fn hist_series_with_negative_sizes_but_valid_canvas_is_set_up() {
    let s = startup_hist_serie(-1, 1, -1).unwrap();
    assert_eq!(s.canvas_rows(), 1);
    assert_eq!(s.canvas_cols(), 255);
    assert_eq!(s.slot(), None);
    let t = startup_hist_serie(-10, 1, 2).err();
    assert_eq!(t, Some(SeriesError::NegativeCanvas));
}

#[test]
fn hist_series_with_zero_height_has_empty_slots() {
    let mut s = startup_hist_serie(0, 1, 3).unwrap();
    assert_eq!(s.canvas_rows(), 0);
    assert_eq!(s.canvas_cols(), 256);
    let (src, hist) = s.slot().unwrap();
    assert_eq!(src, IntRect { x: 0, y: 0, width: 0, height: 0 });
    assert_eq!(hist, IntRect { x: 0, y: 0, width: 256, height: 0 });
    s.advance();
    assert_eq!(s.next_row(), 1);
}

#[test]
fn hist_series_holds_exactly_count_rows() {
    for count in 0..5 {
        let mut s = startup_hist_serie(7, 2, count).unwrap();
        let mut filled = 0;
        while s.slot().is_some() {
            s.advance();
            filled += 1;
        }
        assert_eq!(filled, count);
    }
}

fn exam_boxes() -> Vec<BoxSpec> {
    vec![
        BoxSpec { page: 1, kind: Kind::Binary },
        BoxSpec { page: 2, kind: Kind::Binary },
        BoxSpec { page: 1, kind: Kind::Binary },
        BoxSpec { page: 2, kind: Kind::Other },
        BoxSpec { page: 1, kind: Kind::Binary },
    ]
}

#[test]
fn boxes_on_page_are_those_of_the_page_in_order() {
    let b = exam_boxes();
    assert_eq!(first_unsupported_on_page(&b, 1), None);
    assert_eq!(boxes_on_page(&b, 1), vec![0, 2, 4]);
    assert_eq!(boxes_on_page(&b, 3), Vec::<usize>::new());
}

#[test]
fn one_trace_row_per_binary_box_of_the_page() {
    let b = exam_boxes();
    assert_eq!(count_binary_on_page(&b, 1), 3);
    assert_eq!(count_binary_on_page(&b, 1), boxes_on_page(&b, 1).len());
    assert_eq!(count_binary_on_page(&b, 2), 1);
    assert_eq!(count_binary_on_page(&b, 9), 0);
}

#[test]
fn boxes_of_other_pages_change_nothing_on_a_page() {
    let b = exam_boxes();
    let only_page_one: Vec<BoxSpec> = b.iter().copied().filter(|x| x.page == 1).collect();
    let read1: Vec<BoxSpec> = boxes_on_page(&b, 1).into_iter().map(|i| b[i]).collect();
    let read2: Vec<BoxSpec> =
        boxes_on_page(&only_page_one, 1).into_iter().map(|i| only_page_one[i]).collect();
    assert_eq!(read1, read2);
    assert_eq!(boxes_on_page(&only_page_one, 1), vec![0, 1, 2]);
}

#[test]
fn darkening_a_checked_box_keeps_it_checked() {
    let light: Vec<u8> = vec![100, 200, 140, 230];
    let dark: Vec<u8> = light.iter().map(|p| p / 2).collect();
    assert_eq!(binary_box_analysis(&histogram(&light)), Ok(Answer::Binary(true)));
    assert_eq!(binary_box_analysis(&histogram(&dark)), Ok(Answer::Binary(true)));
}

#[test]
fn unsupported_box_on_page_is_found() {
    let b = exam_boxes();
    assert_eq!(first_unsupported_on_page(&b, 2), Some(3));
}
