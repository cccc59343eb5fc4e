use openshell::tui::chrome::{bordered_height, side_margin, Area};
use openshell::tui::layout::{
    centered_popup, centered_rect, centered_shares, popup_column_shares, popup_row_shares, Share,
};
use openshell::tui::popups::{popup_height, popup_width, text_width, DETAIL_HEIGHT};

#[test]
fn what_fits_stands_in_the_middle() {
    for whole in 0..90_u16 {
        for size in 0..=whole {
            let area = Area { x: 3, y: 5, width: whole, height: 90 - whole };
            let height = (90 - whole) / 2;
            let inner = centered_rect(size, height, area);
            assert_eq!(
                inner,
                Area {
                    x: 3 + (whole - size) / 2,
                    y: 5 + (90 - whole - height) / 2,
                    width: size,
                    height,
                }
            );
        }
    }
}

#[test]
fn what_does_not_fit_takes_all() {
    for size in [10_u16, 11, 20, 500, u16::MAX] {
        for offset in [0_u16, 7, 300] {
            let area = Area { x: offset, y: 2, width: 10, height: 4 };
            assert_eq!(centered_rect(size, size, area), area);
        }
    }
}

fn whole_cells(hundredths: u32) -> u32 {
    (hundredths + 50) / 100
}

#[test]
fn popups_take_their_hundredths_of_the_columns() {
    for percent in 0..=100_u16 {
        for width in [0_u16, 1, 7, 24, 80, 99, 211, 1000, 65_000] {
            let area = Area { x: 5, y: 0, width, height: 24 };
            let inner = centered_popup(percent, 7, area);
            let side = u32::from((100 - percent) / 2);
            let from = whole_cells(side * u32::from(width));
            let to = whole_cells((side + u32::from(percent)) * u32::from(width));
            assert_eq!(u32::from(inner.x), 5 + from, "{percent}% of {width}");
            assert_eq!(u32::from(inner.width), to - from, "{percent}% of {width}");
        }
    }
}

#[test]
fn popups_keep_their_rows() {
    for height in (0..=120_u16).chain([300, u16::MAX]) {
        for rows in [0_u16, 1, 4, 24, 50, 99, 100, 101, 120, 250] {
            let area = Area { x: 0, y: 3, width: 80, height: rows };
            let inner = centered_popup(50, height, area);
            assert_eq!(inner.height, height.min(rows), "{height} of {rows}");
            if height >= rows {
                assert_eq!(inner.y, 3);
            }
            let margin = u32::from(side_margin(height));
            if 2 * margin * u32::from(rows) + 100 * u32::from(height) <= 100 * u32::from(rows) {
                let above = whole_cells(margin * u32::from(rows));
                assert_eq!(u32::from(inner.y), 3 + above, "{height} of {rows}");
            }
            assert!(inner.y >= 3 && inner.y + inner.height <= 3 + rows);
        }
    }
}

#[test]
fn shares_are_what_is_asked_for() {
    assert_eq!(
        centered_shares(10, 25),
        vec![Share::Length(7), Share::Length(10), Share::Min(0)]
    );
    assert_eq!(
        centered_shares(30, 25),
        vec![Share::Length(0), Share::Length(30), Share::Min(0)]
    );
    assert_eq!(
        popup_row_shares(7),
        vec![Share::Percentage(46), Share::Length(7), Share::Percentage(46)]
    );
    assert_eq!(
        popup_row_shares(200),
        vec![Share::Percentage(0), Share::Length(200), Share::Percentage(0)]
    );
    assert_eq!(
        popup_column_shares(50),
        vec![Share::Percentage(25), Share::Percentage(50), Share::Percentage(25)]
    );
    assert_eq!(side_margin(7), 46);
}

#[test]
fn popups_have_their_size() {
    assert_eq!(popup_width(80), 64);
    assert_eq!(popup_width(10), 6);
    assert_eq!(popup_width(3), 0);
    assert_eq!(popup_height(DETAIL_HEIGHT, 24), 20);
    assert_eq!(popup_height(DETAIL_HEIGHT, 80), 22);
    assert_eq!(text_width(64), 60);
    assert_eq!(text_width(2), 1);
    assert_eq!(bordered_height(3), 5);
    let area = Area { x: 1, y: 1, width: 10, height: 2 };
    assert_eq!(
        area.message_area(),
        Area { x: 3, y: 3, width: 6, height: 0 }
    );
}
