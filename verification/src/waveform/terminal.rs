use vstd::prelude::*;

verus! {

/// The glyph at row `y` of a column whose waveform spans rows `y0` and `y1`
/// (in either order).
pub open spec fn plot_cell(y: int, y0: int, y1: int) -> char {
    let lo = if y0 <= y1 { y0 } else { y1 };
    let hi = if y0 <= y1 { y1 } else { y0 };
    if lo <= y <= hi { '█' } else { ' ' }
}

/// Plots one column per span on a grid of `height` rows: the rows between
/// the span's two ends (both included) are filled, the rest are blank.
/// Row 0 is the top line.
pub fn plot_columns(spans: &Vec<(usize, usize)>, height: usize) -> (lines: Vec<Vec<char>>)
    requires
        forall|x: int| 0 <= x < spans@.len() ==> (#[trigger] spans@[x]).0 < height && spans@[x].1 < height,
    ensures
        lines@.len() == height,
        forall|y: int| 0 <= y < height ==> (#[trigger] lines@[y])@.len() == spans@.len(),
        forall|y: int, x: int| 0 <= y < height && 0 <= x < spans@.len() ==>
            #[trigger] lines@[y]@[x] == plot_cell(y, spans@[x].0 as int, spans@[x].1 as int),
{
    let mut lines: Vec<Vec<char>> = Vec::with_capacity(height);
    let mut y: usize = 0;
    while y < height
        invariant
            0 <= y <= height,
            lines@.len() == y,
            forall|r: int| 0 <= r < y ==> (#[trigger] lines@[r])@.len() == spans@.len(),
            forall|r: int, x: int| 0 <= r < y && 0 <= x < spans@.len() ==>
                #[trigger] lines@[r]@[x] == plot_cell(r, spans@[x].0 as int, spans@[x].1 as int),
        decreases height - y,
    {
        let mut row: Vec<char> = Vec::with_capacity(spans.len());
        let mut x: usize = 0;
        while x < spans.len()
            invariant
                0 <= x <= spans@.len(),
                0 <= y < height,
                row@.len() == x,
                forall|c: int| 0 <= c < x ==> #[trigger] row@[c] == plot_cell(y as int, spans@[c].0 as int, spans@[c].1 as int),
            decreases spans@.len() - x,
        {
            let (y0, y1) = spans[x];
            let (lo, hi) = if y0 <= y1 { (y0, y1) } else { (y1, y0) };
            row.push(if lo <= y && y <= hi { '█' } else { ' ' });
            x = x + 1;
        }
        lines.push(row);
        y = y + 1;
    }
    lines
}

/// A plotted column fills the rows between its two ends, both included,
/// whichever end is given first.
pub proof fn lemma_plot_cell_span(y: int, y0: int, y1: int)
    ensures
        plot_cell(y, y0, y1) == plot_cell(y, y1, y0),
        plot_cell(y0, y0, y1) == '█',
        plot_cell(y1, y0, y1) == '█',
        (plot_cell(y, y0, y1) == '█') == ((y0 <= y <= y1) || (y1 <= y <= y0)),
{
}

} // verus!
