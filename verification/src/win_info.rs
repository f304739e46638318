//! The terminal window's size in pixels and in cells.
use vstd::prelude::*;

verus! {

#[derive(Clone, Copy, Debug, PartialEq, Eq, Structural)]
pub struct WinInfo {
    pub width_px: u16,
    pub height_px: u16,
    pub cols: u16,
    pub rows: u16,
    pub cell_height: u16,
    pub cell_width: u16,
}

impl WinInfo {
    /// The window information for a terminal of `width_px` x `height_px`
    /// pixels and `columns` x `rows` cells. The cell height is taken from the
    /// width per column and the cell width from the height per row.
    pub fn get_win_info(width_px: u16, height_px: u16, columns: u16, rows: u16) -> (res: WinInfo)
        requires
            columns > 0,
            rows > 0,
        ensures
            res == (WinInfo {
                width_px,
                height_px,
                cols: columns,
                rows,
                cell_height: width_px / columns,
                cell_width: height_px / rows,
            }),
    {
        WinInfo {
            width_px: width_px,
            height_px: height_px,
            cols: columns,
            rows: rows,
            cell_height: width_px / columns,
            cell_width: height_px / rows,
        }
    }
}

} // verus!
