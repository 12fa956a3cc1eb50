use vstd::prelude::*;

verus! {

/// The rows `start..end` of a list of `len` items that a pane of `rows` rows
/// shows: the window starts at the top and scrolls only as far as needed to
/// keep the selected row in view.
pub fn visible_range(selected: usize, rows: usize, len: usize) -> (r: (usize, usize))
    ensures
        r.0 == (if selected >= rows {
            if rows == 0 { selected as int } else { selected - (rows - 1) }
        } else {
            0
        }),
        r.1 == (if r.0 + rows < len { r.0 + rows } else { len as int }),
{
    let start: usize = if selected >= rows {
        if rows == 0 { selected } else { selected - (rows - 1) }
    } else {
        0
    };
    let end: usize = if start < len && rows < len - start {
        start + rows
    } else {
        len
    };
    (start, end)
}

} // verus!
