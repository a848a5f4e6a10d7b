use jetkvm_rdp::h264::{
    analyse_h264, annex_b_nal_types, annex_b_starts, avcc_nal_types, summarise,
};

#[test]
fn start_codes_take_three_or_four_bytes() {
    let data = [0, 0, 0, 1, 0x67, 1, 0, 0, 1, 0x68, 2, 0, 0, 0, 1, 0x65];
    assert_eq!(annex_b_starts(&data), [(0, 4), (6, 9), (11, 15)]);
}

#[test]
fn a_run_of_zeros_gives_one_zero_to_the_start_code() {
    assert_eq!(annex_b_starts(&[0, 0, 0, 0, 0, 1, 9]), [(2, 6)]);
    assert_eq!(annex_b_starts(&[7, 0, 0, 1, 9]), [(1, 4)]);
    assert_eq!(annex_b_starts(&[0, 0, 1]), [(0, 3)]);
}

#[test]
fn adjacent_start_codes_do_not_overlap() {
    assert_eq!(annex_b_starts(&[0, 0, 1, 0, 0, 1]), [(0, 3), (3, 6)]);
    assert_eq!(annex_b_starts(&[0, 0, 0, 1, 0, 0, 0, 1]), [(0, 4), (4, 8)]);
}

#[test]
fn no_start_codes_where_there_are_none() {
    assert!(annex_b_starts(&[]).is_empty());
    assert!(annex_b_starts(&[0, 0]).is_empty());
    assert!(annex_b_starts(&[0, 0, 2, 0, 1, 0, 0, 3]).is_empty());
    assert_eq!(annex_b_nal_types(&[0, 0, 2]), None);
}

#[test]
fn exactly_the_start_codes_are_found() {
    let data: Vec<u8> = (0..400u32).map(|i| ((i * i / 7) % 3 % 2) as u8).collect();
    let starts = annex_b_starts(&data);
    let mut expected = Vec::new();
    for p in 0..data.len() - 2 {
        if data[p..p + 3] == [0, 0, 1] {
            let begin = if p > 0 && data[p - 1] == 0 { p - 1 } else { p };
            expected.push((begin, p + 3));
        }
    }
    assert!(!expected.is_empty());
    assert_eq!(starts, expected);
}

#[test]
fn byte_stream_types_are_told() {
    let data = [0, 0, 0, 1, 0x67, 0x42, 0, 0, 0, 1, 0x68, 0xce, 0, 0, 0, 1, 0x65, 0x88];
    assert_eq!(annex_b_nal_types(&data), Some(vec![7, 8, 5]));
}

#[test]
fn nothing_follows_a_start_code_at_the_end() {
    assert_eq!(annex_b_nal_types(&[0, 0, 1, 0x41, 0, 0, 1]), Some(vec![1]));
    assert_eq!(annex_b_nal_types(&[0, 0, 0, 1]), Some(vec![]));
}

#[test]
fn length_prefixed_types_are_told() {
    let data = [0, 0, 0, 2, 0x67, 0x42, 0, 0, 0, 1, 0x68, 0, 0, 0, 3, 0x65, 1, 2];
    assert_eq!(avcc_nal_types(&data), Some(vec![7, 8, 5]));
    assert_eq!(avcc_nal_types(&[0, 0, 0, 1, 0x41]), Some(vec![1]));
}

#[test]
fn broken_lengths_are_not_recognised() {
    assert_eq!(avcc_nal_types(&[]), None);
    assert_eq!(avcc_nal_types(&[0, 0, 0, 1]), None);
    // an empty unit
    assert_eq!(avcc_nal_types(&[0, 0, 0, 0, 0x65]), None);
    // a unit that is cut short
    assert_eq!(avcc_nal_types(&[0, 0, 0, 2, 0x65]), None);
    assert_eq!(avcc_nal_types(&[0xff, 0xff, 0xff, 0xff, 0x65]), None);
    // bytes left over
    assert_eq!(avcc_nal_types(&[0, 0, 0, 1, 0x65, 0, 0, 0]), None);
    // types that are not those of single units
    assert_eq!(avcc_nal_types(&[0, 0, 0, 1, 0x60]), None);
    assert_eq!(avcc_nal_types(&[0, 0, 0, 1, 0x78]), None);
    assert_eq!(avcc_nal_types(&[0, 0, 0, 1, 0x77]), Some(vec![23]));
}

#[test]
fn longer_lengths_are_big_endian() {
    let mut data = vec![0, 1, 1, 2, 0x65];
    data.resize(4 + 0x010102, 0xaa);
    assert_eq!(avcc_nal_types(&data), Some(vec![5]));
}

#[test]
fn summary_tells_parameter_sets_and_idr() {
    let analysis = summarise("test", vec![9, 7, 1]);
    assert_eq!(analysis.format, "test");
    assert_eq!(analysis.nal_types, [9, 7, 1]);
    assert!(analysis.has_sps && !analysis.has_pps && !analysis.has_idr);
    let analysis = summarise("test", vec![8, 5]);
    assert!(!analysis.has_sps && analysis.has_pps && analysis.has_idr);
    let analysis = summarise("test", vec![]);
    assert!(!analysis.has_sps && !analysis.has_pps && !analysis.has_idr);
}

#[test]
fn byte_stream_is_analysed_as_such() {
    let analysis = analyse_h264(&[0, 0, 0, 1, 0x67, 1, 0, 0, 0, 1, 0x65, 2]);
    assert_eq!(analysis.format, "annex-b");
    assert_eq!(analysis.nal_types, [7, 5]);
    assert!(analysis.has_sps && !analysis.has_pps && analysis.has_idr);
}

#[test]
fn length_prefixed_units_are_analysed_as_such() {
    let analysis = analyse_h264(&[0, 0, 0, 2, 0x68, 1, 0, 0, 0, 2, 0x41, 9]);
    assert_eq!(analysis.format, "avcc-4byte");
    assert_eq!(analysis.nal_types, [8, 1]);
    assert!(analysis.has_pps);
}

#[test]
fn start_codes_win_over_lengths() {
    // a length of one reads as a start code
    let analysis = analyse_h264(&[0, 0, 0, 1, 0x65]);
    assert_eq!(analysis.format, "annex-b");
    assert_eq!(analysis.nal_types, [5]);
}

#[test]
fn a_single_unit_is_told_by_its_type() {
    let analysis = analyse_h264(&[0x65, 0x88, 0x84]);
    assert_eq!(analysis.format, "raw-single-nal");
    assert_eq!(analysis.nal_types, [5]);
    assert!(analysis.has_idr);
}

#[test]
fn anything_else_is_unknown() {
    for data in [&[][..], &[0x00][..], &[0x78, 1][..], &[0xff, 0xff][..]] {
        let analysis = analyse_h264(data);
        assert_eq!(analysis.format, "unknown");
        assert!(analysis.nal_types.is_empty());
        assert!(!analysis.has_sps && !analysis.has_pps && !analysis.has_idr);
    }
}
