use tdcpix::timeline::{decode_times, group_lanes, pixel_in_group_of, time_span};
use tdcpix::{DataWord, TDCpixApp};

fn timed(address: u8, lc: u16, lf: u8, tc: u8, tf: u8) -> DataWord {
    DataWord::decode(
        (address as u64) << 40
            | (lc as u64) << 17
            | (lf as u64) << 12
            | (tc as u64) << 5
            | (tf as u64),
    )
}

fn line_of(words: &[u64], frame: u64) -> String {
    let mut s = String::new();
    for w in words {
        s.push_str(&format!("{:X} ", w));
    }
    s.push_str(&format!("{:X}\n", frame));
    s
}

fn hit(address: u8, arbiter: u8, pileup: u8) -> u64 {
    (address as u64) << 40 | (arbiter as u64) << 35 | (pileup as u64) << 30
}

#[test]
fn decode_times_of_each_word() {
    let words = [timed(0, 2, 3, 4, 5), timed(1, 0, 0, 0, 0), timed(2, 10, 1, 1, 1)];
    assert_eq!(decode_times(&words), vec![(6544, 12990), (0, 0), (31348, 3223)]);
    assert!(decode_times(&[]).is_empty());
}

#[test]
fn time_span_of_no_word() {
    assert_eq!(time_span(&[]), None);
}

#[test]
fn time_span_of_one_word() {
    assert_eq!(time_span(&[timed(0, 2, 3, 4, 5)]), Some((6544, 19534)));
    assert_eq!(time_span(&[timed(0, 0, 0, 0, 0)]), Some((0, 0)));
}

#[test]
fn time_span_is_earliest_start_and_latest_end() {
    let words = [
        timed(0, 10, 0, 1, 0),
        timed(0, 2, 0, 60, 0),
        timed(0, 50, 0, 0, 0),
        timed(0, 1, 1, 0, 1),
    ];
    assert_eq!(time_span(&words), Some((3125 + 98, 62 * 3125)));
}

#[test]
fn time_span_by_a_plain_scan() {
    let words: Vec<DataWord> =
        (1u64..300).map(|i| DataWord::decode(i.wrapping_mul(0x9E37_79B9_7F4A_7C15))).collect();
    for n in [1usize, 2, 17, 299] {
        let part = &words[..n];
        let first = part.iter().map(|w| w.get_start_time()).min().unwrap();
        let last = part.iter().map(|w| w.get_time()).max().unwrap();
        assert_eq!(time_span(part), Some((first, last)));
    }
}

#[test]
fn group_lanes_follow_the_addresses() {
    let words = [
        timed(20, 0, 0, 0, 0),
        timed(3, 0, 0, 0, 0),
        timed(20, 1, 0, 0, 0),
        timed(127, 0, 0, 0, 0),
        timed(0, 0, 0, 0, 0),
    ];
    let (groups, lanes) = group_lanes(&words);
    assert_eq!(groups, 4);
    assert_eq!(lanes, vec![2, 1, 2, 3, 0]);
}

#[test]
fn group_lanes_of_no_word() {
    let (groups, lanes) = group_lanes(&[]);
    assert_eq!(groups, 0);
    assert!(lanes.is_empty());
}

#[test]
fn group_lanes_of_addresses_built_by_hand() {
    let mut a = timed(0, 0, 0, 0, 0);
    a.address = 255;
    let mut b = timed(0, 0, 0, 0, 0);
    b.address = 200;
    let (groups, lanes) = group_lanes(&[a, b, a]);
    assert_eq!(groups, 2);
    assert_eq!(lanes, vec![1, 0, 1]);
}

#[test]
fn group_lanes_by_a_plain_count() {
    let words: Vec<DataWord> =
        (1u64..400).map(|i| DataWord::decode(i.wrapping_mul(0x9E37_79B9_7F4A_7C15))).collect();
    let (groups, lanes) = group_lanes(&words);
    let mut seen: Vec<u8> = words.iter().map(|w| w.address).collect();
    seen.sort();
    seen.dedup();
    assert_eq!(groups, seen.len());
    for (i, w) in words.iter().enumerate() {
        assert_eq!(lanes[i], seen.iter().filter(|&&a| a < w.address).count());
    }
}

#[test]
fn pixel_in_group_of_a_hit() {
    let hit = (3u8, 21u8);
    for y in [3u8, 12, 21, 30, 39] {
        assert!(pixel_in_group_of((3, y), hit));
        assert!(!pixel_in_group_of((4, y), hit));
    }
    for y in [0u8, 2, 4, 11, 13, 22, 40, 48, 57] {
        assert!(!pixel_in_group_of((3, y), hit));
    }
}

#[test]
fn box_of_the_picked_hit_is_highlighted() {
    let mut app = TDCpixApp::new();
    let text = line_of(&[hit(9, 2, 0), hit(0, 1, 0)], 1);
    assert_eq!(app.update_file(Some(&text)), Ok(()));
    assert!(!app.is_box_highlighted(0));
    app.select_pixel((1, 9));
    assert!(app.is_box_highlighted(0));
    assert!(!app.is_box_highlighted(1));
    assert!(!app.is_box_highlighted(2));
    app.select_pixel((1, 9));
    assert!(!app.is_box_highlighted(0));
}

#[test]
fn box_with_pileup_is_highlighted_by_its_group() {
    let mut app = TDCpixApp::new();
    let text = line_of(&[hit(9, 2, 1), hit(18, 2, 0)], 1);
    assert_eq!(app.update_file(Some(&text)), Ok(()));
    assert_eq!(app.hit_idxes, vec![(1, 9), (2, 9)]);
    app.select_pixel((1, 27));
    assert!(app.is_box_highlighted(0));
    assert!(!app.is_box_highlighted(1));
    app.select_pixel((2, 27));
    assert!(!app.is_box_highlighted(0));
    assert!(!app.is_box_highlighted(1));
    app.select_pixel((1, 28));
    assert!(!app.is_box_highlighted(0));
}

#[test]
fn pileup_flag_is_kept_under_the_low_byte_of_the_place() {
    // 300 words: word 4 has no pileup, word 260 has; both sit in one group.
    let mut words = vec![hit(50, 1, 0); 300];
    words[4] = hit(9, 2, 0);
    words[260] = hit(9, 2, 1);
    words[5] = hit(18, 2, 1);
    words[261] = hit(18, 2, 0);
    let mut app = TDCpixApp::new();
    assert_eq!(app.update_file(Some(&line_of(&words, 1))), Ok(()));
    app.select_pixel((1, 27));
    assert!(app.is_box_highlighted(4));
    assert!(app.is_box_highlighted(260));
    app.select_pixel((2, 27));
    assert!(!app.is_box_highlighted(5));
    assert!(!app.is_box_highlighted(261));
}

#[test]
fn no_box_without_a_chunk() {
    let mut app = TDCpixApp::new();
    app.select_pixel((0, 0));
    assert!(!app.is_box_highlighted(0));
    app.select_box(0);
    assert_eq!(app.highlight_idx, (0, 0));
    assert!(app.has_selected_hit);
}

#[test]
fn no_box_beyond_the_hit_list() {
    let mut app = TDCpixApp::new();
    let text = line_of(&[hit(9, 2, 0), hit(0, 1, 0)], 1);
    assert_eq!(app.update_file(Some(&text)), Ok(()));
    app.hit_idxes.truncate(1);
    app.select_pixel((0, 0));
    assert!(!app.is_box_highlighted(1));
    app.select_box(1);
    assert_eq!(app.highlight_idx, (0, 0));
    assert!(app.has_selected_hit);
}

#[test]
fn clicking_a_box_picks_its_hit() {
    let mut app = TDCpixApp::new();
    let text = line_of(&[hit(9, 2, 0), hit(0, 1, 0)], 1);
    assert_eq!(app.update_file(Some(&text)), Ok(()));
    app.select_box(0);
    assert_eq!(app.highlight_idx, (1, 9));
    assert!(app.has_selected_hit);
    app.select_box(1);
    assert_eq!(app.highlight_idx, (0, 0));
    assert!(app.has_selected_hit);
    app.select_box(1);
    assert!(!app.has_selected_hit);
    app.select_box(2);
    assert_eq!(app.highlight_idx, (0, 0));
    assert!(!app.has_selected_hit);
}
