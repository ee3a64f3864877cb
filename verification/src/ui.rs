//! Hit-testing for the player's clickable layout.
//!
//! The layout is a fixed grid of buttons and a playlist column; these
//! functions decide what a click at terminal cell `(x, y)` refers to.
//! Pure geometry, no rendering.

use vstd::prelude::*;

verus! {

/// How many playlist rows are visible at once.
pub const MAX_PLAYLIST_VISIBLE: usize = 5;

/// The row, relative to the layout origin, of the first playlist item.
pub const PLAYLIST_START_Y: u16 = 17;

/// Whether a click at `(x, y)` lands on the button `btn`, given as
/// `(column, row, width)` relative to the layout origin `(ui_x, ui_y)`.
pub fn is_click_in_button(x: u16, y: u16, btn: (u16, u16, u16), ui_x: u16, ui_y: u16) -> (r: bool)
    ensures
        r == {
            &&& x >= ui_x + btn.0
            &&& x < ui_x + btn.0 + btn.2
            &&& y == ui_y + btn.1
        },
{
    let bx = ui_x as u32 + btn.0 as u32;
    let by = ui_y as u32 + btn.1 as u32;
    (x as u32) >= bx && (x as u32) < bx + btn.2 as u32 && (y as u32) == by
}

/// Which visible playlist row, if any, the vertical position `y` refers
/// to.
pub open spec fn spec_playlist_row(y: int, ui_y: int) -> int {
    y - (ui_y + PLAYLIST_START_Y)
}

/// Whether a click at `(x, y)` lands on a playlist item, and which track
/// it selects: the item's visible row, offset by the scroll position,
/// when that lands on an existing track.
pub fn get_playlist_click(
    x: u16,
    y: u16,
    ui_x: u16,
    ui_y: u16,
    scroll: usize,
    track_count: usize,
) -> (r: Option<usize>)
    ensures
        ({
            let row = spec_playlist_row(y as int, ui_y as int);
            let visible = if track_count < MAX_PLAYLIST_VISIBLE {
                track_count as int
            } else {
                MAX_PLAYLIST_VISIBLE as int
            };
            if ui_x + 3 <= x < ui_x + 60 && 0 <= row < visible && scroll + row < track_count {
                r == Some((scroll + row) as usize)
            } else {
                r == None::<usize>
            }
        }),
{
    let x_start = ui_x as u32 + 3;
    let x_end = ui_x as u32 + 60;
    if (x as u32) < x_start || (x as u32) >= x_end {
        return None;
    }
    let row_base = ui_y as u32 + PLAYLIST_START_Y as u32;
    if (y as u32) < row_base {
        return None;
    }
    let row = (y as u32 - row_base) as usize;
    let visible = if track_count < MAX_PLAYLIST_VISIBLE {
        track_count
    } else {
        MAX_PLAYLIST_VISIBLE
    };
    if row >= visible {
        return None;
    }
    if scroll >= track_count || track_count - scroll <= row {
        return None;
    }
    Some(scroll + row)
}

} // verus!
