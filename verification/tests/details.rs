use hearthdeck::app::{console_total_count, DetailsFocus};
use hearthdeck::app_group::AppLibraryConfig;
use hearthdeck::details::{
    details_cursor, details_horizontal_target, details_rows, details_vertical_target,
    DetailsLayout,
};

fn layout(versions: usize, screenshots: usize) -> DetailsLayout {
    DetailsLayout {
        disc_picker: false,
        versions,
        screenshots,
    }
}

#[test]
fn the_details_cursor_walks_rows_without_leaving_them() {
    let l = layout(2, 2);
    let mut focus = DetailsFocus::Play;
    let mut step = |focus: &mut DetailsFocus, horizontal: bool, delta: i32| {
        let next = if horizontal {
            details_horizontal_target(&l, *focus, delta)
        } else {
            details_vertical_target(&l, *focus, delta)
        };
        if let Some(next) = next {
            *focus = next;
        }
        details_cursor(&l, *focus)
    };
    assert_eq!(details_cursor(&l, focus), Some(DetailsFocus::Play));
    assert_eq!(step(&mut focus, true, 1), Some(DetailsFocus::Favorite));
    assert_eq!(step(&mut focus, true, -1), Some(DetailsFocus::Play));
    assert_eq!(step(&mut focus, true, -1), Some(DetailsFocus::Back));
    assert_eq!(step(&mut focus, true, -1), Some(DetailsFocus::Back));
    assert_eq!(step(&mut focus, false, 1), Some(DetailsFocus::Back));
    assert_eq!(step(&mut focus, false, -1), Some(DetailsFocus::Screenshot(0)));
    assert_eq!(step(&mut focus, true, 1), Some(DetailsFocus::Screenshot(1)));
    assert_eq!(step(&mut focus, false, 1), Some(DetailsFocus::Play));
}

#[test]
fn a_single_file_game_has_no_disc_control() {
    assert_eq!(
        details_rows(&layout(0, 0)),
        vec![vec![
            DetailsFocus::Back,
            DetailsFocus::Play,
            DetailsFocus::Favorite,
            DetailsFocus::PlayLater,
        ]]
    );
}

#[test]
fn a_cursor_whose_row_is_gone_falls_back_to_play() {
    assert_eq!(
        details_cursor(&layout(1, 0), DetailsFocus::Screenshot(3)),
        Some(DetailsFocus::Play)
    );
    assert_eq!(
        details_cursor(&layout(1, 0), DetailsFocus::Disc),
        Some(DetailsFocus::Play)
    );
}

#[test]
fn the_open_disc_picker_replaces_the_rows() {
    let picker = DetailsLayout {
        disc_picker: true,
        versions: 3,
        screenshots: 4,
    };
    assert_eq!(
        details_rows(&picker),
        vec![vec![
            DetailsFocus::DiscChoice(0),
            DetailsFocus::DiscChoice(1),
            DetailsFocus::DiscChoice(2),
        ]]
    );
    assert_eq!(
        details_cursor(&picker, DetailsFocus::Play),
        Some(DetailsFocus::DiscChoice(0))
    );
    assert_eq!(
        details_vertical_target(&picker, DetailsFocus::DiscChoice(1), 1),
        None
    );
    let empty = DetailsLayout {
        disc_picker: true,
        versions: 0,
        screenshots: 0,
    };
    assert_eq!(details_cursor(&empty, DetailsFocus::Play), None);
}

#[test]
fn the_console_header_prefers_romm_totals_over_loaded_pages() {
    let mut config = AppLibraryConfig::default();
    config.sync_console_groups(&[(7, "SNES".to_string()), (9, "N64".to_string())]);
    let counts = [(7, 240), (9, 10)];
    assert_eq!(console_total_count(None, Some(0), &config, &counts), Some(240));
    assert_eq!(console_total_count(Some(198), Some(0), &config, &counts), Some(198));
    assert_eq!(console_total_count(None, None, &config, &counts), Some(250));
    assert_eq!(console_total_count(None, None, &config, &[]), None);
    assert_eq!(console_total_count(None, Some(5), &config, &counts), None);
    assert_eq!(console_total_count(None, Some(1), &config, &[(7, 1)]), None);
}

#[test]
fn details_navigation_walks_rows_without_leaving_them() {
    let l = layout(2, 2);
    let mut focus = DetailsFocus::Play;
    let mut move_once = |focus: &mut DetailsFocus, horizontal: bool, delta: i32| {
        let from = details_cursor(&l, *focus).unwrap_or(*focus);
        let next = if horizontal {
            details_horizontal_target(&l, from, delta)
        } else {
            details_vertical_target(&l, from, delta)
        };
        if let Some(next) = next {
            *focus = next;
        }
    };

    // Rows are the screenshot strip, then the action line
    // [Back, Play, Favorite, Disc, Play later].
    assert_eq!(details_cursor(&l, focus), Some(DetailsFocus::Play));
    move_once(&mut focus, true, 1);
    assert_eq!(details_cursor(&l, focus), Some(DetailsFocus::Favorite));
    move_once(&mut focus, true, -1);
    assert_eq!(details_cursor(&l, focus), Some(DetailsFocus::Play));
    move_once(&mut focus, true, -1);
    assert_eq!(details_cursor(&l, focus), Some(DetailsFocus::Back));
    // Clamped at the row's start: no wrapping onto Play later.
    move_once(&mut focus, true, -1);
    assert_eq!(details_cursor(&l, focus), Some(DetailsFocus::Back));
    // The action line is the last row: nothing below it.
    move_once(&mut focus, false, 1);
    assert_eq!(details_cursor(&l, focus), Some(DetailsFocus::Back));
    move_once(&mut focus, false, -1);
    assert_eq!(details_cursor(&l, focus), Some(DetailsFocus::Screenshot(0)));
    move_once(&mut focus, true, 1);
    assert_eq!(details_cursor(&l, focus), Some(DetailsFocus::Screenshot(1)));
    // Down from the strip lands on the action line, keeping its column.
    move_once(&mut focus, false, 1);
    assert_eq!(details_cursor(&l, focus), Some(DetailsFocus::Play));
}

#[test]
fn details_cursor_recovers_when_its_row_disappears() {
    // A later load that found no screenshots leaves the cursor on a row that
    // no longer exists: the next move must recover, not do nothing.
    let l = layout(0, 0);
    let focus = DetailsFocus::Screenshot(0);

    assert_eq!(details_cursor(&l, focus), Some(DetailsFocus::Play));
    let from = details_cursor(&l, focus).unwrap();
    assert_eq!(
        details_horizontal_target(&l, from, 1),
        Some(DetailsFocus::Favorite)
    );
}

#[test]
fn an_open_disc_picker_replaces_the_pages_rows() {
    let picker = DetailsLayout {
        disc_picker: true,
        versions: 2,
        screenshots: 1,
    };

    // The picker covers the page, so it owns the rows: the cursor starts on
    // the disc Play already launches.
    assert_eq!(details_rows(&picker).len(), 1);
    assert_eq!(
        details_cursor(&picker, DetailsFocus::Play),
        Some(DetailsFocus::DiscChoice(0))
    );
}

#[test]
fn details_action_line_drops_disc_selection_for_single_file_games() {
    assert_eq!(
        details_rows(&layout(0, 0)),
        vec![vec![
            DetailsFocus::Back,
            DetailsFocus::Play,
            DetailsFocus::Favorite,
            DetailsFocus::PlayLater,
        ]]
    );
}

#[test]
fn console_header_uses_romm_totals_not_the_loaded_pages() {
    let mut config = AppLibraryConfig::default();
    config.sync_console_groups(&[(7, "SNES".to_string())]);
    // Only two entries are lazy-loaded so far, but RomM reports 240 games on
    // the console: the header must show the console total, not 2.
    let counts = [(7, 240)];

    assert_eq!(console_total_count(None, Some(0), &config, &counts), Some(240));
}

#[test]
fn grouped_list_total_overrides_the_file_count_header() {
    let mut config = AppLibraryConfig::default();
    config.sync_console_groups(&[(7, "SNES".to_string())]);
    // RomM counts every file (240), but grouping collapses regions and discs
    // into fewer tiles; the header must show the grouped total once the list
    // endpoint has reported it.
    let counts = [(7, 240)];

    assert_eq!(
        console_total_count(Some(198), Some(0), &config, &counts),
        Some(198)
    );
}

use hearthdeck::details::{DetailsStateKind, StateWrite};
use hearthdeck::details_screen::{DetailsFrontend, DetailsMessage, DetailsWork};
use hearthdeck::pages::Page;
use hearthdeck::transitions::{PageState, PAGE_TRANSITION_MS};

fn library() -> DetailsFrontend {
    let mut pages = PageState::default();
    pages.switch_page(Page::Library, 0);
    pages.expire(PAGE_TRANSITION_MS);
    DetailsFrontend { pages, details: None, daemon: true }
}

#[test]
fn the_details_screen_opens_settles_and_retires() {
    let mut f = library();
    // A tile that is no RomM game opens nothing.
    let work = f.step(DetailsMessage::Open { index: 0, entry_id: "desktop:firefox".into() }, 1_000);
    assert_eq!(work, DetailsWork::Nothing);
    assert!(f.details.is_none());

    let work = f.step(DetailsMessage::Open { index: 1, entry_id: "romm:99".into() }, 1_000);
    assert_eq!(work, DetailsWork::Opened { load: Some(99) });
    assert_eq!(f.pages.page, Page::Details);

    // A stale read is dropped; the one for the game shown is kept.
    f.step(DetailsMessage::Loaded { rom_id: 4014, result: Err("too slow".into()) }, 1_100);
    assert!(f.details.as_ref().unwrap().error.is_none());
    f.step(DetailsMessage::Loaded { rom_id: 99, result: Err("too slow".into()) }, 1_200);
    assert_eq!(f.details.as_ref().unwrap().error.as_deref(), Some("too slow"));

    // A favorite press shows first, waits, and settles on the answer.
    let work = f.step(DetailsMessage::Toggle(DetailsStateKind::Favorite), 1_300);
    assert_eq!(
        work,
        DetailsWork::Write(StateWrite {
            rom_id: 99,
            kind: DetailsStateKind::Favorite,
            previous: None,
            value: true
        })
    );
    assert_eq!(f.details.as_ref().unwrap().state.favorite, Some(true));
    assert_eq!(f.step(DetailsMessage::Toggle(DetailsStateKind::Favorite), 1_310), DetailsWork::Nothing);
    let refused = f.step(
        DetailsMessage::Written {
            kind: DetailsStateKind::Favorite,
            rom_id: 99,
            previous: None,
            result: Err("offline".into()),
        },
        1_400,
    );
    assert_eq!(refused, DetailsWork::Alert("offline".into()));
    assert_eq!(f.details.as_ref().unwrap().state.favorite, None);
    assert!(!f.details.as_ref().unwrap().state.state_pending);

    // Back returns to the tile, and the screen lives until its fade ends.
    assert_eq!(f.step(DetailsMessage::Close, 2_000), DetailsWork::FocusGrid(1));
    assert_eq!(f.pages.page, Page::Library);
    f.step(DetailsMessage::Animate, 2_000 + PAGE_TRANSITION_MS - 1);
    assert!(f.details.is_some());
    f.step(DetailsMessage::Animate, 2_000 + PAGE_TRANSITION_MS);
    assert!(f.details.is_none());
}

#[test]
fn without_a_daemon_a_press_changes_nothing() {
    let mut f = library();
    f.daemon = false;
    assert_eq!(
        f.step(DetailsMessage::Open { index: 0, entry_id: "romm:5".into() }, 0),
        DetailsWork::Opened { load: None }
    );
    assert_eq!(f.step(DetailsMessage::Toggle(DetailsStateKind::Backlog), 10), DetailsWork::Nothing);
    assert_eq!(f.details.as_ref().unwrap().state.backlogged, None);
}
