//! Braille text art: every 2 by 4 block of pixels becomes one braille glyph.

use crate::image::{grayscale, spec_grayscale, Image, Raster, TranscodeError};
use crate::models::BrailleOption;
use crate::resize::{resize_rejects, resize_to, resized_raster, ResizeAlgorithm};
use crate::text::{
    char_from_code, draw_text, grid_text, join_rows, push_char, text_canvas, text_renders,
};
use vstd::arithmetic::div_mod::{
    lemma_div_denominator, lemma_fundamental_div_mod, lemma_fundamental_div_mod_converse,
};
use vstd::prelude::*;
use vstd::string::*;

verus! {

/// The character that spells one dot in a pattern key.
pub open spec fn dot_char(on: bool) -> char {
    if on {
        '1'
    } else {
        '0'
    }
}

/// The key of a dot pattern: four rows of two characters, `1` for a raised
/// dot and `0` for a flat one, the rows separated by single spaces. `dots`
/// lists the eight dots row by row.
pub open spec fn pattern_key(dots: Seq<bool>) -> Seq<char>
    recommends
        dots.len() == 8,
{
    Seq::new(
        11,
        |i: int|
            if i % 3 == 2 {
                ' '
            } else {
                dot_char(dots[(i / 3) * 2 + i % 3])
            },
    )
}

/// Spells the key of a dot pattern.
pub fn make_pattern_key(dots: &Vec<bool>) -> (key: String)
    requires
        dots@.len() == 8,
    ensures
        key@ == pattern_key(dots@),
{
    let mut key = String::new();
    let mut i: usize = 0;
    proof {
        reveal_strlit("0");
        reveal_strlit("1");
        reveal_strlit(" ");
    }
    while i < 11
        invariant
            dots@.len() == 8,
            i <= 11,
            key@.len() == i,
            forall|k: int| 0 <= k < i ==> key@[k] == pattern_key(dots@)[k],
            "0"@ == seq!['0'],
            "1"@ == seq!['1'],
            " "@ == seq![' '],
        decreases 11 - i,
    {
        if i % 3 == 2 {
            key.append(" ");
        } else if dots[(i / 3) * 2 + i % 3] {
            key.append("1");
        } else {
            key.append("0");
        }
        i = i + 1;
    }
    assert(key@ =~= pattern_key(dots@));
    key
}

/// A sparse lookup table from dot-pattern keys to glyphs. Keys are text, so
/// the entries are kept as a sequence without repeated keys and looked up by
/// comparing characters.
#[derive(Clone, Debug)]
pub struct BrailleTable {
    pub keys: Vec<String>,
    pub glyphs: Vec<String>,
}

impl BrailleTable {
    /// Every key has one glyph, and no key occurs twice.
    pub open spec fn wf(&self) -> bool {
        &&& self.keys@.len() == self.glyphs@.len()
        &&& forall|i: int, j: int|
            0 <= i < j < self.keys@.len() ==> (#[trigger] self.keys@[i])@ != (
            #[trigger] self.keys@[j])@
    }

    /// Whether `i` is a position at which `key` stands.
    pub open spec fn holds_at(&self, key: Seq<char>, i: int) -> bool {
        0 <= i < self.keys@.len() && self.keys@[i]@ == key
    }

    /// The glyph that the table gives for `key`, if it has one.
    pub open spec fn spec_lookup(&self, key: Seq<char>) -> Option<Seq<char>> {
        if exists|i: int| self.holds_at(key, i) {
            Some(self.glyphs@[choose|i: int| self.holds_at(key, i)]@)
        } else {
            None
        }
    }

    /// An empty table.
    pub fn new() -> (table: BrailleTable)
        ensures
            table.wf(),
            table.keys@.len() == 0,
            forall|key: Seq<char>| table.spec_lookup(key) is None,
    {
        BrailleTable { keys: Vec::new(), glyphs: Vec::new() }
    }

    /// The position at which `key` stands, if it is in the table.
    pub fn position(&self, key: &String) -> (res: Option<usize>)
        ensures
            res matches Some(i) ==> self.holds_at(key@, i as int),
            res is None ==> forall|i: int| !self.holds_at(key@, i),
    {
        let mut i: usize = 0;
        while i < self.keys.len()
            invariant
                i <= self.keys@.len(),
                forall|k: int| 0 <= k < i ==> !self.holds_at(key@, k),
            decreases self.keys@.len() - i,
        {
            if self.keys[i] == *key {
                return Some(i);
            }
            i = i + 1;
        }
        None
    }

    /// The glyph that the table gives for `key`, if it has one.
    pub fn lookup(&self, key: &String) -> (res: Option<String>)
        requires
            self.wf(),
        ensures
            res is Some <==> self.spec_lookup(key@) is Some,
            res matches Some(glyph) ==> Some(glyph@) == self.spec_lookup(key@),
    {
        match self.position(key) {
            Some(i) => {
                proof {
                    let w = choose|w: int| self.holds_at(key@, w);
                    assert(self.holds_at(key@, i as int));
                    assert(w == i);
                }
                Some(self.glyphs[i].clone())
            },
            None => None,
        }
    }

    /// Gives `key` the glyph `glyph`, in place of any glyph it had.
    pub fn insert(&mut self, key: String, glyph: String)
        requires
            old(self).wf(),
        ensures
            final(self).wf(),
            forall|k: Seq<char>|
                #[trigger] final(self).spec_lookup(k) == if k == key@ {
                    Some(glyph@)
                } else {
                    old(self).spec_lookup(k)
                },
    {
        let ghost key_view = key@;
        let ghost glyph_view = glyph@;
        match self.position(&key) {
            Some(i) => {
                self.glyphs.set(i, glyph);
                assert(self.keys@ == old(self).keys@);
                assert(self.wf());
                assert forall|k: Seq<char>|
                    #[trigger] self.spec_lookup(k) == if k == key_view {
                        Some(glyph_view)
                    } else {
                        old(self).spec_lookup(k)
                    } by {
                    assert(forall|w: int| self.holds_at(k, w) == old(self).holds_at(k, w));
                    if k == key_view {
                        assert(self.holds_at(k, i as int));
                        let w = choose|w: int| self.holds_at(k, w);
                        assert(self.holds_at(k, w));
                        assert(w == i);
                    } else if exists|w: int| old(self).holds_at(k, w) {
                        let w = choose|w: int| old(self).holds_at(k, w);
                        assert(old(self).holds_at(k, w));
                        assert(self.holds_at(k, w));
                        let v = choose|v: int| self.holds_at(k, v);
                        assert(self.holds_at(k, v));
                        assert(v == w);
                        assert(w != i);
                    }
                }
            },
            None => {
                self.keys.push(key);
                self.glyphs.push(glyph);
                let ghost last = old(self).keys@.len() as int;
                assert(self.keys@ == old(self).keys@.push(key));
                assert(self.keys@[last]@ == key_view);
                assert(forall|w: int| 0 <= w < last ==> self.keys@[w] == old(self).keys@[w]);
                assert(forall|w: int| 0 <= w < last ==> !old(self).holds_at(key_view, w));
                assert(self.wf()) by {
                    assert forall|a: int, b: int| 0 <= a < b < self.keys@.len() implies (
                    #[trigger] self.keys@[a])@ != (#[trigger] self.keys@[b])@ by {
                        if b == last {
                            assert(!old(self).holds_at(key_view, a));
                        }
                    }
                }
                assert forall|k: Seq<char>|
                    #[trigger] self.spec_lookup(k) == if k == key_view {
                        Some(glyph_view)
                    } else {
                        old(self).spec_lookup(k)
                    } by {
                    if k == key_view {
                        assert(self.holds_at(k, last));
                        let w = choose|w: int| self.holds_at(k, w);
                        assert(self.holds_at(k, w));
                        if w != last {
                            assert(old(self).holds_at(k, w));
                        }
                    } else {
                        assert(forall|w: int| self.holds_at(k, w) == old(self).holds_at(k, w));
                        if exists|w: int| old(self).holds_at(k, w) {
                            let w = choose|w: int| old(self).holds_at(k, w);
                            assert(old(self).holds_at(k, w));
                            assert(self.holds_at(k, w));
                            let v = choose|v: int| self.holds_at(k, v);
                            assert(self.holds_at(k, v));
                            assert(old(self).holds_at(k, v));
                            assert(v == w);
                        }
                    }
                }
            },
        }
    }
}

/// The luminance sampled at `(x, y)`: the pixel's gray level inside the
/// image, zero outside.
pub open spec fn sample_gray(image: Raster, x: int, y: int) -> nat {
    if image.contains(x, y) {
        spec_grayscale(image.at(x, y))
    } else {
        0
    }
}

/// Whether the dot for position `(x, y)` is raised: its luminance is below
/// the threshold, or the other way round when `invert` is set.
pub open spec fn dot_on(image: Raster, x: int, y: int, invert: bool, threshold: nat) -> bool {
    (sample_gray(image, x, y) < threshold) != invert
}

/// The eight dots of the block whose top-left pixel is `(x, y)`, row by row.
pub open spec fn block_dots(image: Raster, x: int, y: int, invert: bool, threshold: nat) -> Seq<
    bool,
> {
    Seq::new(8, |i: int| dot_on(image, x + i % 2, y + i / 2, invert, threshold))
}

/// Samples the eight dots of the block whose top-left pixel is `(x, y)`.
pub fn sample_block(x: usize, y: usize, image: &Image, invert: bool, threshold: u32) -> (dots:
    Vec<bool>)
    requires
        image.wf(),
    ensures
        dots@ == block_dots(image@, x as int, y as int, invert, threshold as nat),
{
    let width = image.width as usize;
    let height = image.height as usize;
    let mut dots: Vec<bool> = Vec::new();
    let mut i: usize = 0;
    while i < 8
        invariant
            image.wf(),
            width == image.width,
            height == image.height,
            i <= 8,
            dots@.len() == i,
            forall|k: int|
                0 <= k < i ==> dots@[k] == dot_on(
                    image@,
                    x + k % 2,
                    y + k / 2,
                    invert,
                    threshold as nat,
                ),
        decreases 8 - i,
    {
        let col = i % 2;
        let row = i / 2;
        let gray = if x < width && col < width - x && y < height && row < height - y {
            grayscale(image.pixel((x + col) as u32, (y + row) as u32))
        } else {
            0
        };
        dots.push((gray < threshold) != invert);
        i = i + 1;
    }
    assert(dots@ =~= block_dots(image@, x as int, y as int, invert, threshold as nat));
    dots
}

/// Maps the block of pixels whose top-left corner is `(x, y)` to its braille
/// glyph, if the table has one for the block's dot pattern.
pub fn get_braille_from_px(
    x: usize,
    y: usize,
    image: &Image,
    invert: bool,
    threshold: u32,
    table: &BrailleTable,
) -> (res: Option<String>)
    requires
        image.wf(),
        table.wf(),
    ensures
        res is Some <==> block_glyph(
            image@,
            *table,
            x as int,
            y as int,
            invert,
            threshold as nat,
        ) is Some,
        res matches Some(glyph) ==> Some(glyph@) == block_glyph(
            image@,
            *table,
            x as int,
            y as int,
            invert,
            threshold as nat,
        ),
{
    let dots = sample_block(x, y, image, invert, threshold);
    let key = make_pattern_key(&dots);
    table.lookup(&key)
}

/// The glyph that the table gives for the dot pattern of the block at `(x, y)`.
pub open spec fn block_glyph(
    image: Raster,
    table: BrailleTable,
    x: int,
    y: int,
    invert: bool,
    threshold: nat,
) -> Option<Seq<char>> {
    table.spec_lookup(pattern_key(block_dots(image, x, y, invert, threshold)))
}

/// The cell content that marks a block without a glyph.
pub open spec fn placeholder() -> Seq<char> {
    seq!['.']
}

/// The glyph that stands in for a cell without a glyph inside a row: the
/// braille pattern without a raised dot, which renders as blank and is as
/// wide as any other braille cell.
pub open spec fn blank_glyph() -> Seq<char> {
    seq![braille_char(0)]
}

/// `n` is where the trailing run of placeholder cells of `row` begins.
pub open spec fn is_trim_point(row: Seq<Seq<char>>, n: int) -> bool {
    &&& 0 <= n <= row.len()
    &&& forall|i: int| n <= i < row.len() ==> #[trigger] row[i] == placeholder()
    &&& n == 0 || row[n - 1] != placeholder()
}

/// Where the trailing run of placeholder cells of `row` begins.
pub open spec fn trim_point(row: Seq<Seq<char>>) -> int {
    choose|n: int| is_trim_point(row, n)
}

/// A row has exactly one trim point.
pub proof fn lemma_trim_point_unique(row: Seq<Seq<char>>, n: int)
    requires
        is_trim_point(row, n),
    ensures
        trim_point(row) == n,
{
    let m = trim_point(row);
    assert(is_trim_point(row, m));
    if m < n {
        assert(row[n - 1] == placeholder());
    } else if n < m {
        assert(row[m - 1] == placeholder());
    }
}

/// A row after clean-up: the trailing run of placeholders is cut off, and
/// every placeholder that remains becomes the blank glyph.
pub open spec fn fixed_row(row: Seq<Seq<char>>) -> Seq<Seq<char>> {
    Seq::new(
        trim_point(row) as nat,
        |i: int|
            if row[i] == placeholder() {
                blank_glyph()
            } else {
                row[i]
            },
    )
}

/// A grid after clean-up of every row.
pub open spec fn fixed_grid(grid: Seq<Seq<Seq<char>>>) -> Seq<Seq<Seq<char>>> {
    Seq::new(grid.len(), |r: int| fixed_row(grid[r]))
}

/// The cells of a row as character sequences.
pub open spec fn row_view(row: Seq<String>) -> Seq<Seq<char>> {
    Seq::new(row.len(), |i: int| row[i]@)
}

/// The cells of a grid as character sequences, row by row.
pub open spec fn grid_view(grid: Seq<Vec<String>>) -> Seq<Seq<Seq<char>>> {
    Seq::new(grid.len(), |r: int| row_view(grid[r]@))
}

/// The first `width` cells of a row, or all of them if it has fewer.
pub open spec fn leading_cells(row: Seq<Seq<char>>, width: nat) -> Seq<Seq<char>> {
    if width < row.len() {
        row.take(width as int)
    } else {
        row
    }
}

/// A grid after clean-up of the first `width` cells of each of its first
/// `height` rows; the rows below stay as they are.
pub open spec fn fixed_block(grid: Seq<Seq<Seq<char>>>, width: nat, height: nat) -> Seq<
    Seq<Seq<char>>,
> {
    Seq::new(
        grid.len(),
        |r: int|
            if r < height {
                fixed_row(leading_cells(grid[r], width))
            } else {
                grid[r]
            },
    )
}

/// Cleans up the first `width` cells of one row of a braille grid.
pub fn fix_row(row: &Vec<String>, width: usize) -> (out: Vec<String>)
    ensures
        row_view(out@) == fixed_row(leading_cells(row_view(row@), width as nat)),
{
    let dot = String::from_str(".");
    proof {
        reveal_strlit(".");
        reveal_strlit("\u{2800}");
        assert(dot@ =~= placeholder());
    }
    let ghost cells = leading_cells(row_view(row@), width as nat);
    let len: usize = if width < row.len() {
        width
    } else {
        row.len()
    };
    let mut n: usize = len;
    while n > 0 && row[n - 1] == dot
        invariant
            n <= len,
            len == cells.len(),
            len <= row@.len(),
            dot@ == placeholder(),
            forall|i: int| 0 <= i < len ==> cells[i] == (#[trigger] row@[i])@,
            forall|i: int| n <= i < len ==> #[trigger] cells[i] == placeholder(),
        decreases n,
    {
        n = n - 1;
    }
    proof {
        assert(is_trim_point(cells, n as int));
        lemma_trim_point_unique(cells, n as int);
    }
    let mut out: Vec<String> = Vec::new();
    let mut i: usize = 0;
    while i < n
        invariant
            n <= len,
            len == cells.len(),
            len <= row@.len(),
            i <= n,
            dot@ == placeholder(),
            forall|i: int| 0 <= i < len ==> cells[i] == (#[trigger] row@[i])@,
            "\u{2800}"@ == blank_glyph(),
            out@.len() == i,
            forall|k: int|
                0 <= k < i ==> (#[trigger] out@[k])@ == (if cells[k] == placeholder() {
                    blank_glyph()
                } else {
                    cells[k]
                }),
        decreases n - i,
    {
        if row[i] == dot {
            out.push(String::from_str("\u{2800}"));
        } else {
            out.push(row[i].clone());
        }
        i = i + 1;
    }
    assert(row_view(out@) =~= fixed_row(cells));
    out
}

/// A copy of a row of cells.
pub fn copy_row(row: &Vec<String>) -> (out: Vec<String>)
    ensures
        row_view(out@) == row_view(row@),
{
    let mut out: Vec<String> = Vec::new();
    let mut i: usize = 0;
    while i < row.len()
        invariant
            i <= row@.len(),
            out@.len() == i,
            forall|k: int| 0 <= k < i ==> (#[trigger] out@[k])@ == row@[k]@,
        decreases row@.len() - i,
    {
        out.push(row[i].clone());
        i = i + 1;
    }
    assert(row_view(out@) =~= row_view(row@));
    out
}

/// Cleans up a braille grid of `height` rows of `width` cells: in every row
/// the trailing run of placeholder cells is cut off, and every placeholder
/// that remains is replaced with the blank glyph. Cells beyond `width` are
/// dropped, and rows beyond `height` are left as they are.
pub fn fix_braille_spaces(matrix: Vec<Vec<String>>, width: usize, height: usize) -> (out: Vec<
    Vec<String>,
>)
    ensures
        grid_view(out@) == fixed_block(grid_view(matrix@), width as nat, height as nat),
{
    let mut out: Vec<Vec<String>> = Vec::new();
    let mut r: usize = 0;
    while r < matrix.len()
        invariant
            r <= matrix@.len(),
            out@.len() == r,
            forall|k: int|
                0 <= k < r ==> row_view((#[trigger] out@[k])@) == fixed_block(
                    grid_view(matrix@),
                    width as nat,
                    height as nat,
                )[k],
        decreases matrix@.len() - r,
    {
        if r < height {
            out.push(fix_row(&matrix[r], width));
        } else {
            out.push(copy_row(&matrix[r]));
        }
        r = r + 1;
    }
    assert(grid_view(out@) =~= fixed_block(grid_view(matrix@), width as nat, height as nat));
    out
}

/// Cleaning up a grid that has `height` rows of `width` cells cleans up every row.
pub proof fn lemma_fixed_block_of_grid(grid: Seq<Seq<Seq<char>>>, width: nat, height: nat)
    requires
        grid.len() == height,
        forall|r: int| 0 <= r < grid.len() ==> (#[trigger] grid[r]).len() == width,
    ensures
        fixed_block(grid, width, height) == fixed_grid(grid),
{
    assert(fixed_block(grid, width, height) =~= fixed_grid(grid));
}

/// The number of braille cells across an image `width` pixels wide.
pub open spec fn cells_across(width: nat) -> nat {
    (width + 1) / 2
}

/// The number of braille cells down an image `height` pixels high.
pub open spec fn cells_down(height: nat) -> nat {
    (height + 3) / 4
}

/// The content of the cell at column `cx` of row `cy` before clean-up: the
/// glyph of its block, or the placeholder where the table has none.
pub open spec fn raw_cell(
    image: Raster,
    table: BrailleTable,
    cx: int,
    cy: int,
    invert: bool,
    threshold: nat,
) -> Seq<char> {
    match block_glyph(image, table, 2 * cx, 4 * cy, invert, threshold) {
        Some(glyph) => glyph,
        None => placeholder(),
    }
}

/// The grid of an image before clean-up.
pub open spec fn raw_grid(image: Raster, table: BrailleTable, invert: bool, threshold: nat) -> Seq<
    Seq<Seq<char>>,
> {
    Seq::new(
        cells_down(image.height),
        |cy: int|
            Seq::new(
                cells_across(image.width),
                |cx: int| raw_cell(image, table, cx, cy, invert, threshold),
            ),
    )
}

/// The braille grid of an image: one glyph per block, every row cleaned up.
pub open spec fn braille_grid(
    image: Raster,
    table: BrailleTable,
    invert: bool,
    threshold: nat,
) -> Seq<Seq<Seq<char>>> {
    fixed_grid(raw_grid(image, table, invert, threshold))
}

/// Encodes an image as a grid of braille glyphs: one cell per 2 by 4 block of
/// pixels, a dot raised where the luminance is below `threshold` (at or above
/// it when `invert` is set), positions beyond the image counting as black.
pub fn encode_braille(image: &Image, table: &BrailleTable, threshold: u32, invert: bool) -> (grid:
    Vec<Vec<String>>)
    requires
        image.wf(),
        table.wf(),
    ensures
        grid_view(grid@) == braille_grid(image@, *table, invert, threshold as nat),
{
    let across: usize = (image.width as usize + 1) / 2;
    let down: usize = (image.height as usize + 3) / 4;
    proof {
        reveal_strlit(".");
    }
    let ghost raw = raw_grid(image@, *table, invert, threshold as nat);
    let mut matrix: Vec<Vec<String>> = Vec::new();
    let mut cy: usize = 0;
    while cy < down
        invariant
            image.wf(),
            table.wf(),
            across == cells_across(image@.width),
            down == cells_down(image@.height),
            raw == raw_grid(image@, *table, invert, threshold as nat),
            "."@ == placeholder(),
            cy <= down,
            matrix@.len() == cy,
            forall|r: int| 0 <= r < cy ==> row_view((#[trigger] matrix@[r])@) == raw[r],
        decreases down - cy,
    {
        let mut row: Vec<String> = Vec::new();
        let mut cx: usize = 0;
        while cx < across
            invariant
                image.wf(),
                table.wf(),
                across == cells_across(image@.width),
                down == cells_down(image@.height),
                "."@ == placeholder(),
                cy < down,
                cx <= across,
                row@.len() == cx,
                forall|c: int|
                    0 <= c < cx ==> (#[trigger] row@[c])@ == raw_cell(
                        image@,
                        *table,
                        c,
                        cy as int,
                        invert,
                        threshold as nat,
                    ),
            decreases across - cx,
        {
            let cell = match get_braille_from_px(cx * 2, cy * 4, image, invert, threshold, table) {
                Some(glyph) => glyph,
                None => String::from_str("."),
            };
            row.push(cell);
            cx = cx + 1;
        }
        assert(row_view(row@) =~= raw[cy as int]);
        matrix.push(row);
        cy = cy + 1;
    }
    assert(grid_view(matrix@) =~= raw);
    proof {
        lemma_fixed_block_of_grid(raw, across as nat, down as nat);
    }
    fix_braille_spaces(matrix, across, down)
}

/// The longer side, in pixels, of the image that [`braille`] samples.
pub open spec fn braille_size(option: BrailleOption) -> nat {
    match option.size {
        Some(size) => size as nat,
        None => 130,
    }
}

/// The luminance below which [`braille`] raises a dot.
pub open spec fn braille_threshold(option: BrailleOption) -> nat {
    match option.threshold {
        Some(threshold) => threshold as nat,
        None => 90,
    }
}

/// Whether [`braille`] raises the dots of light positions.
pub open spec fn braille_invert(option: BrailleOption) -> bool {
    match option.invert {
        Some(invert) => invert,
        None => false,
    }
}

/// The text of the braille rendering of an image that is not rejected: the
/// grid of the image resized so that its longer side is the requested size,
/// its rows joined with newlines.
pub open spec fn braille_text_of(image: Raster, table: BrailleTable, option: BrailleOption) -> Seq<
    char,
> {
    join_rows(
        braille_grid(
            resized_raster(image, braille_size(option), ResizeAlgorithm::Bilinear),
            table,
            braille_invert(option),
            braille_threshold(option),
        ),
    )
}

/// The text of the braille rendering of an image: the image is resized so
/// that its longer side is the requested size (130 unless given), encoded
/// with the requested threshold (90) and inversion (none), and the rows of
/// the grid are joined with newlines.
///
/// Fails with `InvalidInput` exactly when the source has a zero side or the
/// requested size is zero.
pub fn braille_text(image: Image, table: &BrailleTable, option: BrailleOption) -> (res: Result<
    String,
    TranscodeError,
>)
    requires
        image.wf(),
        table.wf(),
    ensures
        res is Err <==> resize_rejects(image@, braille_size(option)),
        res matches Err(e) ==> e == TranscodeError::InvalidInput,
        res matches Ok(text) ==> text@ == braille_text_of(image@, *table, option),
{
    let size: u32 = match option.size {
        Some(size) => size as u32,
        None => 130,
    };
    let threshold: u32 = match option.threshold {
        Some(threshold) => threshold as u32,
        None => 90,
    };
    let invert: bool = match option.invert {
        Some(invert) => invert,
        None => false,
    };
    let source = match resize_to(image, size) {
        Ok(source) => source,
        Err(e) => {
            return Err(e);
        },
    };
    let grid = encode_braille(&source, table, threshold, invert);
    Ok(grid_text(&grid))
}

/// The error, if any, with which [`braille`] answers.
pub open spec fn braille_error(
    image: Raster,
    font: ril::Font,
    table: BrailleTable,
    option: BrailleOption,
) -> Option<TranscodeError> {
    if resize_rejects(image, braille_size(option)) {
        Some(TranscodeError::InvalidInput)
    } else if !text_renders(font, braille_text_of(image, table, option)) {
        Some(TranscodeError::RenderFailure)
    } else {
        None
    }
}

/// Builds an image out of braille characters: the text of [`braille_text`],
/// written in black on a white canvas as large as the text's bounding box in
/// `font`.
///
/// Fails with `InvalidInput` when the source has a zero side or the
/// requested size is zero, and with `RenderFailure` when the bounding box of
/// the text has a zero side or one beyond the dimension bound.
pub fn braille(image: Image, font: &ril::Font, table: &BrailleTable, option: BrailleOption) -> (res:
    Result<Image, TranscodeError>)
    requires
        image.wf(),
        table.wf(),
    ensures
        res.err() == braille_error(image@, *font, *table, option),
        res matches Ok(canvas) ==> canvas.wf() && canvas@ == text_canvas(
            *font,
            braille_text_of(image@, *table, option),
        ),
{
    match braille_text(image, table, option) {
        Ok(text) => draw_text(font, text),
        Err(e) => Err(e),
    }
}

/// The dots of the braille pattern that stands `offset` places after the
/// empty pattern in Unicode, row by row: the first three rows of the left
/// column carry the weights 1, 2 and 4, those of the right column 8, 16 and
/// 32, and the bottom row 64 and 128.
pub open spec fn pattern_dots(offset: nat) -> Seq<bool> {
    seq![
        offset % 2 == 1,
        (offset / 8) % 2 == 1,
        (offset / 2) % 2 == 1,
        (offset / 16) % 2 == 1,
        (offset / 4) % 2 == 1,
        (offset / 32) % 2 == 1,
        (offset / 64) % 2 == 1,
        (offset / 128) % 2 == 1,
    ]
}

/// The weight of a dot if it is raised, zero if it is not.
pub open spec fn dot_weight(on: bool, weight: nat) -> nat {
    if on {
        weight
    } else {
        0
    }
}

/// How many places after the empty pattern the pattern of `dots` stands in Unicode.
pub open spec fn pattern_offset(dots: Seq<bool>) -> nat
    recommends
        dots.len() == 8,
{
    dot_weight(dots[0], 1) + dot_weight(dots[2], 2) + dot_weight(dots[4], 4) + dot_weight(
        dots[1],
        8,
    ) + dot_weight(dots[3], 16) + dot_weight(dots[5], 32) + dot_weight(dots[6], 64) + dot_weight(
        dots[7],
        128,
    )
}

/// The braille character `offset` places after the empty pattern.
pub open spec fn braille_char(offset: nat) -> char {
    (0x2800 + offset) as char
}

/// An offset below 256 is the offset of its own pattern.
pub proof fn lemma_offset_of_pattern(offset: nat)
    requires
        offset < 256,
    ensures
        pattern_offset(pattern_dots(offset)) == offset,
{
    let p = offset as int;
    let q1 = p / 2;
    let q2 = q1 / 2;
    let q3 = q2 / 2;
    let q4 = q3 / 2;
    let q5 = q4 / 2;
    let q6 = q5 / 2;
    let q7 = q6 / 2;
    lemma_div_denominator(p, 2, 2);
    lemma_div_denominator(p, 4, 2);
    lemma_div_denominator(p, 8, 2);
    lemma_div_denominator(p, 16, 2);
    lemma_div_denominator(p, 32, 2);
    lemma_div_denominator(p, 64, 2);
    assert(q2 == p / 4 && q3 == p / 8 && q4 == p / 16 && q5 == p / 32 && q6 == p / 64 && q7 == p
        / 128);
    lemma_fundamental_div_mod(p, 2);
    lemma_fundamental_div_mod(q1, 2);
    lemma_fundamental_div_mod(q2, 2);
    lemma_fundamental_div_mod(q3, 2);
    lemma_fundamental_div_mod(q4, 2);
    lemma_fundamental_div_mod(q5, 2);
    lemma_fundamental_div_mod(q6, 2);
    lemma_fundamental_div_mod(q7, 2);
    assert(q7 / 2 == 0);
    let dots = pattern_dots(offset);
    assert(dot_weight(dots[0], 1) == p % 2);
    assert(dot_weight(dots[2], 2) == 2 * (q1 % 2));
    assert(dot_weight(dots[4], 4) == 4 * (q2 % 2));
    assert(dot_weight(dots[1], 8) == 8 * (q3 % 2));
    assert(dot_weight(dots[3], 16) == 16 * (q4 % 2));
    assert(dot_weight(dots[5], 32) == 32 * (q5 % 2));
    assert(dot_weight(dots[6], 64) == 64 * (q6 % 2));
    assert(dot_weight(dots[7], 128) == 128 * (q7 % 2));
}

/// The bits of a number below 256 that is given as a sum of weighted bits.
pub proof fn lemma_bits_of_sum(
    b0: int,
    b1: int,
    b2: int,
    b3: int,
    b4: int,
    b5: int,
    b6: int,
    b7: int,
)
    requires
        0 <= b0 <= 1,
        0 <= b1 <= 1,
        0 <= b2 <= 1,
        0 <= b3 <= 1,
        0 <= b4 <= 1,
        0 <= b5 <= 1,
        0 <= b6 <= 1,
        0 <= b7 <= 1,
    ensures
        ({
            let m = b0 + 2 * b1 + 4 * b2 + 8 * b3 + 16 * b4 + 32 * b5 + 64 * b6 + 128 * b7;
            &&& 0 <= m < 256
            &&& m % 2 == b0
            &&& (m / 2) % 2 == b1
            &&& (m / 4) % 2 == b2
            &&& (m / 8) % 2 == b3
            &&& (m / 16) % 2 == b4
            &&& (m / 32) % 2 == b5
            &&& (m / 64) % 2 == b6
            &&& (m / 128) % 2 == b7
        }),
{
    let k7 = b7;
    let k6 = 2 * k7 + b6;
    let k5 = 2 * k6 + b5;
    let k4 = 2 * k5 + b4;
    let k3 = 2 * k4 + b3;
    let k2 = 2 * k3 + b2;
    let k1 = 2 * k2 + b1;
    let m = 2 * k1 + b0;
    lemma_fundamental_div_mod_converse(m, 2, k1, b0);
    lemma_fundamental_div_mod_converse(m, 4, k2, 2 * b1 + b0);
    lemma_fundamental_div_mod_converse(m, 8, k3, 4 * b2 + 2 * b1 + b0);
    lemma_fundamental_div_mod_converse(m, 16, k4, 8 * b3 + 4 * b2 + 2 * b1 + b0);
    lemma_fundamental_div_mod_converse(m, 32, k5, 16 * b4 + 8 * b3 + 4 * b2 + 2 * b1 + b0);
    lemma_fundamental_div_mod_converse(
        m,
        64,
        k6,
        32 * b5 + 16 * b4 + 8 * b3 + 4 * b2 + 2 * b1 + b0,
    );
    lemma_fundamental_div_mod_converse(
        m,
        128,
        k7,
        64 * b6 + 32 * b5 + 16 * b4 + 8 * b3 + 4 * b2 + 2 * b1 + b0,
    );
    lemma_fundamental_div_mod_converse(k1, 2, k2, b1);
    lemma_fundamental_div_mod_converse(k2, 2, k3, b2);
    lemma_fundamental_div_mod_converse(k3, 2, k4, b3);
    lemma_fundamental_div_mod_converse(k4, 2, k5, b4);
    lemma_fundamental_div_mod_converse(k5, 2, k6, b5);
    lemma_fundamental_div_mod_converse(k6, 2, k7, b6);
    lemma_fundamental_div_mod_converse(k7, 2, 0, b7);
}

/// A pattern is the pattern of its own offset.
pub proof fn lemma_pattern_of_offset(dots: Seq<bool>)
    requires
        dots.len() == 8,
    ensures
        pattern_offset(dots) < 256,
        pattern_dots(pattern_offset(dots)) == dots,
{
    let b0 = dot_weight(dots[0], 1) as int;
    let b1 = dot_weight(dots[2], 1) as int;
    let b2 = dot_weight(dots[4], 1) as int;
    let b3 = dot_weight(dots[1], 1) as int;
    let b4 = dot_weight(dots[3], 1) as int;
    let b5 = dot_weight(dots[5], 1) as int;
    let b6 = dot_weight(dots[6], 1) as int;
    let b7 = dot_weight(dots[7], 1) as int;
    lemma_bits_of_sum(b0, b1, b2, b3, b4, b5, b6, b7);
    let m = pattern_offset(dots);
    assert(m == b0 + 2 * b1 + 4 * b2 + 8 * b3 + 16 * b4 + 32 * b5 + 64 * b6 + 128 * b7);
    let back = pattern_dots(m);
    assert(back.len() == 8);
    assert(back[0] == dots[0]);
    assert(back[1] == dots[1]);
    assert(back[2] == dots[2]);
    assert(back[3] == dots[3]);
    assert(back[4] == dots[4]);
    assert(back[5] == dots[5]);
    assert(back[6] == dots[6]);
    assert(back[7] == dots[7]);
    assert(back =~= dots);
}

/// The key of a pattern spells the dot at position `d` at its character
/// `3 * (d / 2) + d % 2`.
pub proof fn lemma_pattern_key_spells_dot(dots: Seq<bool>, d: int)
    requires
        dots.len() == 8,
        0 <= d < 8,
    ensures
        pattern_key(dots).len() == 11,
        pattern_key(dots)[3 * (d / 2) + d % 2] == dot_char(dots[d]),
{
    let k = 3 * (d / 2) + d % 2;
    assert(0 <= k < 11);
    assert(k % 3 == d % 2 && k / 3 == d / 2);
    assert((k / 3) * 2 + k % 3 == d);
}

/// Patterns with the same key are the same pattern.
pub proof fn lemma_pattern_key_injective(a: Seq<bool>, b: Seq<bool>)
    requires
        a.len() == 8,
        b.len() == 8,
        pattern_key(a) == pattern_key(b),
    ensures
        a == b,
{
    assert forall|d: int| 0 <= d < 8 implies a[d] == b[d] by {
        lemma_pattern_key_spells_dot(a, d);
        lemma_pattern_key_spells_dot(b, d);
        assert(dot_char(a[d]) == dot_char(b[d]));
    }
    assert(a =~= b);
}

impl BrailleTable {
    /// The table holds exactly the 255 braille patterns with at least one
    /// raised dot, in the order of Unicode, each with its character as glyph.
    pub open spec fn is_standard(&self) -> bool {
        &&& self.keys@.len() == 255
        &&& self.glyphs@.len() == 255
        &&& forall|i: int|
            0 <= i < 255 ==> (#[trigger] self.keys@[i])@ == pattern_key(
                pattern_dots((i + 1) as nat),
            )
        &&& forall|i: int|
            0 <= i < 255 ==> (#[trigger] self.glyphs@[i])@ == seq![braille_char((i + 1) as nat)]
    }

    /// A standard table is well-formed, and gives every pattern with a raised
    /// dot its Unicode character and the empty pattern nothing.
    pub proof fn lemma_standard_lookup(&self, dots: Seq<bool>)
        requires
            self.is_standard(),
            dots.len() == 8,
        ensures
            self.wf(),
            self.spec_lookup(pattern_key(dots)) == if pattern_offset(dots) == 0 {
                None::<Seq<char>>
            } else {
                Some(seq![braille_char(pattern_offset(dots))])
            },
    {
        assert forall|i: int, j: int| 0 <= i < j < self.keys@.len() implies (
        #[trigger] self.keys@[i])@ != (#[trigger] self.keys@[j])@ by {
            let a = pattern_dots((i + 1) as nat);
            let b = pattern_dots((j + 1) as nat);
            if pattern_key(a) == pattern_key(b) {
                lemma_pattern_key_injective(a, b);
                lemma_offset_of_pattern((i + 1) as nat);
                lemma_offset_of_pattern((j + 1) as nat);
            }
        }
        let key = pattern_key(dots);
        let m = pattern_offset(dots);
        lemma_pattern_of_offset(dots);
        assert forall|w: int| self.holds_at(key, w) implies w + 1 == m by {
            let d = pattern_dots((w + 1) as nat);
            assert(self.keys@[w]@ == pattern_key(d));
            lemma_pattern_key_injective(d, dots);
            lemma_offset_of_pattern((w + 1) as nat);
        }
        if m != 0 {
            assert(self.keys@[m - 1]@ == pattern_key(pattern_dots(m)));
            assert(self.holds_at(key, m - 1));
            let w = choose|w: int| self.holds_at(key, w);
            assert(self.holds_at(key, w));
            assert(self.glyphs@[m - 1]@ == seq![braille_char(m)]);
        }
    }

    /// The table of the braille patterns of Unicode: every pattern with at
    /// least one raised dot has its character, the empty pattern has none.
    pub fn standard() -> (table: BrailleTable)
        ensures
            table.wf(),
            table.is_standard(),
    {
        let mut keys: Vec<String> = Vec::new();
        let mut glyphs: Vec<String> = Vec::new();
        let mut p: u32 = 1;
        while p <= 255
            invariant
                1 <= p <= 256,
                keys@.len() == p - 1,
                glyphs@.len() == p - 1,
                forall|i: int|
                    0 <= i < p - 1 ==> (#[trigger] keys@[i])@ == pattern_key(
                        pattern_dots((i + 1) as nat),
                    ),
                forall|i: int|
                    0 <= i < p - 1 ==> (#[trigger] glyphs@[i])@ == seq![
                        braille_char((i + 1) as nat),
                    ],
            decreases 256 - p,
        {
            let mut dots: Vec<bool> = Vec::new();
            dots.push(p % 2 == 1);
            dots.push((p / 8) % 2 == 1);
            dots.push((p / 2) % 2 == 1);
            dots.push((p / 16) % 2 == 1);
            dots.push((p / 4) % 2 == 1);
            dots.push((p / 32) % 2 == 1);
            dots.push((p / 64) % 2 == 1);
            dots.push((p / 128) % 2 == 1);
            assert(dots@ =~= pattern_dots(p as nat));
            let key = make_pattern_key(&dots);
            let code = char_from_code(0x2800 + p).unwrap();
            let mut glyph = String::new();
            push_char(&mut glyph, code);
            assert(glyph@ =~= seq![braille_char(p as nat)]);
            keys.push(key);
            glyphs.push(glyph);
            p = p + 1;
        }
        let table = BrailleTable { keys, glyphs };
        proof {
            table.lemma_standard_lookup(Seq::new(8, |i: int| false));
        }
        table
    }
}

/// The blank glyph is no glyph of the standard table, and is neither the
/// placeholder nor a space: a cell that was filled in can be told from every
/// cell with a raised dot.
pub proof fn lemma_blank_glyph_is_distinct(table: BrailleTable, i: int)
    requires
        table.is_standard(),
        0 <= i < 255,
    ensures
        table.glyphs@[i]@ != blank_glyph(),
        blank_glyph() != placeholder(),
        blank_glyph() != seq![' '],
{
    assert(table.glyphs@[i]@[0] == braille_char((i + 1) as nat));
    assert(blank_glyph()[0] == braille_char(0));
    assert(blank_glyph()[0] != placeholder()[0]);
    assert(blank_glyph()[0] != seq![' '][0]);
}

/// The glyph with every dot raised.
pub open spec fn full_glyph() -> Seq<char> {
    seq![braille_char(255)]
}

/// A row without a placeholder stays as it is, and a row of nothing but
/// placeholders becomes empty.
pub proof fn lemma_fixed_row_extremes(row: Seq<Seq<char>>)
    ensures
        (forall|i: int| 0 <= i < row.len() ==> #[trigger] row[i] != placeholder()) ==> fixed_row(
            row,
        ) == row,
        (forall|i: int| 0 <= i < row.len() ==> #[trigger] row[i] == placeholder()) ==> fixed_row(
            row,
        ) == Seq::<Seq<char>>::empty(),
{
    if forall|i: int| 0 <= i < row.len() ==> #[trigger] row[i] != placeholder() {
        assert(is_trim_point(row, row.len() as int));
        lemma_trim_point_unique(row, row.len() as int);
        assert(fixed_row(row) =~= row);
    }
    if forall|i: int| 0 <= i < row.len() ==> #[trigger] row[i] == placeholder() {
        assert(is_trim_point(row, 0));
        lemma_trim_point_unique(row, 0);
        assert(fixed_row(row) =~= Seq::<Seq<char>>::empty());
    }
}

/// On an image whose every pixel is darker than the threshold, read without
/// inversion through a standard table, every cell of the grid is the glyph
/// with all dots raised, and no cell is cut off.
pub proof fn lemma_dark_image_is_all_dots(image: Raster, table: BrailleTable, threshold: nat)
    requires
        image.wf(),
        table.is_standard(),
        threshold >= 1,
        forall|i: int|
            0 <= i < image.pixels.len() ==> spec_grayscale(#[trigger] image.pixels[i]) < threshold,
    ensures
        braille_grid(image, table, false, threshold) == Seq::new(
            cells_down(image.height),
            |cy: int| Seq::new(cells_across(image.width), |cx: int| full_glyph()),
        ),
{
    let raw = raw_grid(image, table, false, threshold);
    let all = Seq::new(8, |i: int| true);
    table.lemma_standard_lookup(all);
    assert(pattern_offset(all) == 255);
    assert forall|cy: int| 0 <= cy < raw.len() implies fixed_row(#[trigger] raw[cy]) == Seq::new(
        cells_across(image.width),
        |cx: int| full_glyph(),
    ) by {
        let row = raw[cy];
        assert forall|cx: int| 0 <= cx < row.len() implies #[trigger] row[cx] == full_glyph() by {
            let dots = block_dots(image, 2 * cx, 4 * cy, false, threshold);
            assert forall|i: int| 0 <= i < 8 implies dots[i] by {
                let x = 2 * cx + i % 2;
                let y = 4 * cy + i / 2;
                if image.contains(x, y) {
                    crate::image::lemma_index_in_grid(
                        x,
                        y,
                        image.width as int,
                        image.height as int,
                    );
                }
            }
            assert(dots =~= all);
        }
        assert(full_glyph() != placeholder()) by {
            assert(full_glyph()[0] != placeholder()[0]);
        }
        lemma_fixed_row_extremes(row);
        assert(row =~= Seq::new(cells_across(image.width), |cx: int| full_glyph()));
    }
    assert(braille_grid(image, table, false, threshold) =~= Seq::new(
        cells_down(image.height),
        |cy: int| Seq::new(cells_across(image.width), |cx: int| full_glyph()),
    ));
}

/// On an image of even width and of a height divisible by four whose every
/// pixel is at least as light as the threshold, read without inversion
/// through a standard table, every cell is a placeholder, so every row of
/// the grid is cut down to nothing.
pub proof fn lemma_light_image_is_empty(image: Raster, table: BrailleTable, threshold: nat)
    requires
        image.wf(),
        table.is_standard(),
        image.width % 2 == 0,
        image.height % 4 == 0,
        forall|i: int|
            0 <= i < image.pixels.len() ==> spec_grayscale(#[trigger] image.pixels[i])
                >= threshold,
    ensures
        braille_grid(image, table, false, threshold) == Seq::new(
            cells_down(image.height),
            |cy: int| Seq::<Seq<char>>::empty(),
        ),
{
    let raw = raw_grid(image, table, false, threshold);
    let none = Seq::new(8, |i: int| false);
    table.lemma_standard_lookup(none);
    assert(pattern_offset(none) == 0);
    assert forall|cy: int| 0 <= cy < raw.len() implies fixed_row(#[trigger] raw[cy]) == Seq::<
        Seq<char>,
    >::empty() by {
        let row = raw[cy];
        assert forall|cx: int| 0 <= cx < row.len() implies #[trigger] row[cx] == placeholder() by {
            let dots = block_dots(image, 2 * cx, 4 * cy, false, threshold);
            assert forall|i: int| 0 <= i < 8 implies !dots[i] by {
                let x = 2 * cx + i % 2;
                let y = 4 * cy + i / 2;
                assert(image.contains(x, y));
                crate::image::lemma_index_in_grid(x, y, image.width as int, image.height as int);
            }
            assert(dots =~= none);
        }
        lemma_fixed_row_extremes(row);
    }
    assert(braille_grid(image, table, false, threshold) =~= Seq::new(
        cells_down(image.height),
        |cy: int| Seq::<Seq<char>>::empty(),
    ));
}

} // verus!
