use tdcpix::pixelgrid::{
    contains_pixel, starts_band, starts_qchip, COLUMNS_PER_QCHIP, GRID_COLUMNS, GRID_ROWS,
    ROWS_PER_BAND,
};
use tdcpix::{HitType, ParseError, TDCpixApp};

// address 9, arbiter 2, pileup 5 | address 0, arbiter 1 | frame word
const TWO_HITS: &str = "91140043085 800000000 1\n";
// address 3, arbiter 4, pileup 2 | frame word
const ONE_HIT: &str = "32080C80040 2\n";

fn loaded() -> TDCpixApp {
    let mut app = TDCpixApp::new();
    let text = format!("{}{}", TWO_HITS, ONE_HIT);
    assert_eq!(app.update_file(Some(&text)), Ok(()));
    app
}

fn snapshot(app: &TDCpixApp) -> (Vec<u64>, usize, Vec<(u8, u8)>, Vec<(u8, u8)>, (u8, u8), bool) {
    (
        app.chunks.iter().map(|c| c.frame_word.raw).collect(),
        app.analysis_chunk_idx,
        app.hit_idxes.clone(),
        app.pileup_idxes.clone(),
        app.highlight_idx,
        app.has_selected_hit,
    )
}

#[test]
fn new_session_is_empty() {
    let app = TDCpixApp::new();
    assert!(app.chunks.is_empty());
    assert_eq!(app.analysis_chunk_idx, 0);
    assert!(app.hit_idxes.is_empty());
    assert!(app.pileup_idxes.is_empty());
    assert_eq!(app.highlight_idx, (0, 0));
    assert!(!app.has_selected_hit);
    assert!(app.analysis_chunk().is_none());
}

#[test]
fn load_puts_the_first_chunk_under_analysis() {
    let app = loaded();
    assert_eq!(app.chunks.len(), 2);
    assert_eq!(app.analysis_chunk_idx, 0);
    assert_eq!(app.hit_idxes, vec![(1, 9), (0, 0)]);
    let group = [(1u8, 0u8), (1, 9), (1, 18), (1, 27), (1, 36)];
    let mut twice = group.to_vec();
    twice.extend(group);
    assert_eq!(app.pileup_idxes, twice);
    assert_eq!(app.analysis_chunk().unwrap().frame_word.raw, 1);
}

#[test]
fn select_another_chunk() {
    let mut app = loaded();
    assert_eq!(app.update_analysis_chunk_idx(1), Ok(()));
    assert_eq!(app.analysis_chunk_idx, 1);
    assert_eq!(app.hit_idxes, vec![(0, 3 + 18)]);
    assert_eq!(app.pileup_idxes, vec![(0, 3), (0, 12), (0, 21), (0, 30), (0, 39)]);
    assert_eq!(app.analysis_chunk().unwrap().frame_word.raw, 2);
    assert_eq!(app.update_analysis_chunk_idx(0), Ok(()));
    assert_eq!(app.hit_idxes, vec![(1, 9), (0, 0)]);
}

#[test]
fn index_out_of_range_changes_nothing() {
    let mut app = loaded();
    assert_eq!(app.update_analysis_chunk_idx(1), Ok(()));
    app.select_pixel((0, 21));
    let before = snapshot(&app);
    for idx in [2usize, 3, 951002, usize::MAX] {
        assert_eq!(app.update_analysis_chunk_idx(idx), Err(ParseError::IndexOutOfRange));
        assert_eq!(snapshot(&app), before);
    }
}

#[test]
fn index_out_of_range_in_an_empty_session() {
    let mut app = TDCpixApp::new();
    assert_eq!(app.update_analysis_chunk_idx(0), Err(ParseError::IndexOutOfRange));
    assert_eq!(snapshot(&app), snapshot(&TDCpixApp::new()));
}

#[test]
fn unreadable_file_changes_nothing() {
    let mut app = loaded();
    let before = snapshot(&app);
    assert_eq!(app.update_file(None), Err(ParseError::FileUnreadable));
    assert_eq!(snapshot(&app), before);
}

#[test]
fn malformed_file_changes_nothing() {
    let mut app = loaded();
    assert_eq!(app.update_analysis_chunk_idx(1), Ok(()));
    let before = snapshot(&app);
    assert_eq!(app.update_file(Some("1 2\nxyz\n")), Err(ParseError::MalformedWord));
    assert_eq!(snapshot(&app), before);
    assert_eq!(app.update_file(Some("1 2\n\n3\n")), Err(ParseError::EmptyLine));
    assert_eq!(snapshot(&app), before);
}

#[test]
fn load_replaces_the_chunks() {
    let mut app = loaded();
    assert_eq!(app.update_analysis_chunk_idx(1), Ok(()));
    assert_eq!(app.update_file(Some("800000000 7\n800000000 8\n800000000 9\n")), Ok(()));
    assert_eq!(app.chunks.len(), 3);
    assert_eq!(app.analysis_chunk_idx, 0);
    assert_eq!(app.hit_idxes, vec![(0, 0)]);
    assert!(app.pileup_idxes.is_empty());
    assert_eq!(app.analysis_chunk().unwrap().frame_word.raw, 7);
}

#[test]
fn load_of_an_empty_readout_keeps_index_and_pixels() {
    let mut app = loaded();
    assert_eq!(app.update_analysis_chunk_idx(1), Ok(()));
    let hits = app.hit_idxes.clone();
    let pileup = app.pileup_idxes.clone();
    assert_eq!(app.update_file(Some("")), Ok(()));
    assert!(app.chunks.is_empty());
    assert_eq!(app.analysis_chunk_idx, 1);
    assert_eq!(app.hit_idxes, hits);
    assert_eq!(app.pileup_idxes, pileup);
    assert!(app.analysis_chunk().is_none());
}

#[test]
fn load_keeps_the_picked_pixel() {
    let mut app = loaded();
    app.select_pixel((3, 4));
    assert_eq!(app.update_file(Some(ONE_HIT)), Ok(()));
    assert_eq!(app.highlight_idx, (3, 4));
    assert!(app.has_selected_hit);
}

#[test]
fn hit_type_of_each_kind_of_pixel() {
    let app = loaded();
    assert_eq!(app.hit_type_at(1, 9), HitType::Hit);
    assert_eq!(app.hit_type_at(0, 0), HitType::Hit);
    assert_eq!(app.hit_type_at(1, 0), HitType::Pileup);
    assert_eq!(app.hit_type_at(1, 36), HitType::Pileup);
    assert_eq!(app.hit_type_at(2, 9), HitType::Other);
    assert_eq!(app.hit_type_at(0, 9), HitType::Other);
}

#[test]
fn hit_type_over_the_whole_grid() {
    let app = loaded();
    for x in 0..GRID_COLUMNS {
        for y in 0..GRID_ROWS {
            let want = if app.hit_idxes.contains(&(x, y)) {
                HitType::Hit
            } else if app.pileup_idxes.contains(&(x, y)) {
                HitType::Pileup
            } else {
                HitType::Other
            };
            assert_eq!(app.hit_type_at(x, y), want);
        }
    }
}

#[test]
fn classify_prefers_the_hit() {
    assert_eq!(HitType::classify(true, true), HitType::Hit);
    assert_eq!(HitType::classify(true, false), HitType::Hit);
    assert_eq!(HitType::classify(false, true), HitType::Pileup);
    assert_eq!(HitType::classify(false, false), HitType::Other);
}

#[test]
fn colours_of_the_kinds() {
    assert_eq!(HitType::Hit.rgb(), (0, 255, 0));
    assert_eq!(HitType::DoubleHit.rgb(), (255, 0, 255));
    assert_eq!(HitType::Pileup.rgb(), (255, 0, 0));
    assert_eq!(HitType::Other.rgb(), (50, 50, 50));
}

#[test]
fn contains_pixel_finds_what_is_there() {
    let list = [(1u8, 2u8), (3, 4), (1, 2)];
    assert!(contains_pixel(&list, (1, 2)));
    assert!(contains_pixel(&list, (3, 4)));
    assert!(!contains_pixel(&list, (2, 1)));
    assert!(!contains_pixel(&list, (1, 4)));
    assert!(!contains_pixel(&[], (0, 0)));
}

#[test]
fn picking_a_pixel_twice_lets_it_go() {
    let mut app = TDCpixApp::new();
    assert!(!app.is_highlighted(0, 0));
    app.select_pixel((5, 6));
    assert_eq!(app.highlight_idx, (5, 6));
    assert!(app.has_selected_hit);
    assert!(app.is_highlighted(5, 6));
    assert!(!app.is_highlighted(6, 5));
    app.select_pixel((5, 6));
    assert_eq!(app.highlight_idx, (5, 6));
    assert!(!app.has_selected_hit);
    assert!(!app.is_highlighted(5, 6));
    app.select_pixel((5, 6));
    assert!(app.has_selected_hit);
}

#[test]
fn picking_another_pixel_moves_the_pick() {
    let mut app = TDCpixApp::new();
    app.select_pixel((5, 6));
    app.select_pixel((7, 8));
    assert_eq!(app.highlight_idx, (7, 8));
    assert!(app.has_selected_hit);
    assert!(app.is_highlighted(7, 8));
    assert!(!app.is_highlighted(5, 6));
}

#[test]
fn picking_the_first_pixel_of_a_new_session() {
    let mut app = TDCpixApp::new();
    app.select_pixel((0, 0));
    assert!(app.has_selected_hit);
    assert!(app.is_highlighted(0, 0));
}

#[test]
fn separating_lines_of_the_grid() {
    assert_eq!((GRID_COLUMNS, GRID_ROWS), (40, 45));
    assert_eq!((COLUMNS_PER_QCHIP, ROWS_PER_BAND), (10, 5));
    let lines_x: Vec<u8> = (0..GRID_COLUMNS).filter(|&x| starts_qchip(x)).collect();
    assert_eq!(lines_x, vec![10, 20, 30]);
    let lines_y: Vec<u8> = (0..GRID_ROWS).filter(|&y| starts_band(y)).collect();
    assert_eq!(lines_y, vec![5, 10, 15, 20, 25, 30, 35, 40]);
    assert!(!starts_qchip(0));
    assert!(!starts_band(0));
}
