use crate::automaton::{is_rect, shape_of};
use crate::simulation::Transform;
use vstd::prelude::*;

verus! {

/// A value that maps to an integer category, which picks its color.
pub trait ToNum {
    spec fn num(&self) -> u64;

    fn to_num(&self) -> (r: u64)
        ensures
            r == self.num(),
    ;
}

impl ToNum for u8 {
    open spec fn num(&self) -> u64 {
        *self as u64
    }

    fn to_num(&self) -> (r: u64) {
        *self as u64
    }
}

/// The color of category `t`; unknown categories are black.
pub open spec fn palette(t: u64) -> Seq<u8> {
    if t == 0 {
        seq![255u8, 255u8, 255u8]
    } else if t == 1 {
        seq![0u8, 0u8, 0u8]
    } else if t == 2 {
        seq![255u8, 0u8, 0u8]
    } else if t == 3 {
        seq![0u8, 255u8, 0u8]
    } else if t == 4 {
        seq![0u8, 0u8, 255u8]
    } else if t == 5 {
        seq![255u8, 255u8, 0u8]
    } else if t == 6 {
        seq![0u8, 255u8, 255u8]
    } else if t == 7 {
        seq![128u8, 0u8, 0u8]
    } else if t == 8 {
        seq![128u8, 128u8, 0u8]
    } else if t == 9 {
        seq![128u8, 0u8, 128u8]
    } else {
        seq![0u8, 0u8, 0u8]
    }
}

/// The RGB bytes of a row of cells, three per cell.
pub open spec fn row_pixels<T: ToNum>(row: Seq<T>) -> Seq<u8>
    decreases row.len(),
{
    if row.len() == 0 {
        Seq::empty()
    } else {
        row_pixels(row.drop_last()) + palette(row.last().num())
    }
}

/// The RGB bytes of a grid, row by row.
pub open spec fn grid_pixels<T: ToNum>(v: Seq<Vec<T>>) -> Seq<u8>
    decreases v.len(),
{
    if v.len() == 0 {
        Seq::empty()
    } else {
        grid_pixels(v.drop_last()) + row_pixels(v.last()@)
    }
}

/// An RGB image as a flat vector: pixels row by row, three bytes each.
pub struct FlatImg {
    pub width: usize,
    pub height: usize,
    pub img: Vec<u8>,
}

/// The RGB color of category `t`.
pub fn num_to_rgb(t: u64) -> (r: [u8; 3])
    ensures
        r@ == palette(t),
{
    let r: [u8; 3] = match t {
        0 => [255, 255, 255],
        1 => [0, 0, 0],
        2 => [255, 0, 0],
        3 => [0, 255, 0],
        4 => [0, 0, 255],
        5 => [255, 255, 0],
        6 => [0, 255, 255],
        7 => [128, 0, 0],
        8 => [128, 128, 0],
        9 => [128, 0, 128],
        _ => [0, 0, 0],
    };
    assert(r@ =~= palette(t));
    r
}

impl FlatImg {
    /// The image of a rectangular grid, one pixel per cell.
    pub fn from_2d_vec<T: ToNum>(v: &Vec<Vec<T>>) -> (r: FlatImg)
        requires
            is_rect(v@),
        ensures
            (r.height as nat, r.width as nat) == shape_of(v@),
            r.img@ == grid_pixels(v@),
    {
        let n = v.len();
        let mut img: Vec<u8> = Vec::new();
        if n == 0 {
            return FlatImg { img, width: 0, height: 0 };
        }
        let m = v[0].len();
        let mut i: usize = 0;
        while i < n
            invariant
                n == v@.len(),
                m == v@[0]@.len(),
                is_rect(v@),
                i <= n,
                img@ == grid_pixels(v@.take(i as int)),
            decreases n - i,
        {
            let row = &v[i];
            let ghost before = img@;
            let mut j: usize = 0;
            while j < m
                invariant
                    n == v@.len(),
                    m == v@[0]@.len(),
                    is_rect(v@),
                    i < n,
                    row@ == v@[i as int]@,
                    row@.len() == m,
                    j <= m,
                    img@ == before + row_pixels(row@.take(j as int)),
                decreases m - j,
            {
                let rgb = num_to_rgb(row[j].to_num());
                img.push(rgb[0]);
                img.push(rgb[1]);
                img.push(rgb[2]);
                assert(row@.take(j + 1).drop_last() =~= row@.take(j as int));
                assert(img@ =~= before + row_pixels(row@.take(j + 1)));
                j = j + 1;
            }
            assert(row@.take(m as int) =~= row@);
            assert(v@.take(i + 1).drop_last() =~= v@.take(i as int));
            i = i + 1;
        }
        assert(v@.take(n as int) =~= v@);
        FlatImg { img, width: m, height: n }
    }
}

/// The snapshot that the front-end shows: the grid as an image.
pub fn transform<T: ToNum, S>(grid: &Vec<Vec<T>>, global_state: &S) -> (r: FlatImg)
    requires
        is_rect(grid@),
    ensures
        (r.height as nat, r.width as nat) == shape_of(grid@),
        r.img@ == grid_pixels(grid@),
{
    FlatImg::from_2d_vec(grid)
}

/// The transform that turns a grid into its image.
pub struct ToImage;

impl<T: ToNum, S> Transform<T, S, FlatImg> for ToImage {
    open spec fn applied(&self, grid: Seq<Vec<T>>, global: S, r: FlatImg) -> bool {
        &&& (r.height as nat, r.width as nat) == shape_of(grid)
        &&& r.img@ == grid_pixels(grid)
    }

    fn apply(&self, grid: &Vec<Vec<T>>, global_state: &S) -> (r: FlatImg) {
        transform(grid, global_state)
    }
}

/// Two grids whose rows hold the same cells give the same image bytes.
pub proof fn lemma_same_cells_same_pixels<T: ToNum>(a: Seq<Vec<T>>, b: Seq<Vec<T>>)
    requires
        a.len() == b.len(),
        forall|i: int| 0 <= i < a.len() ==> (#[trigger] a[i])@ == b[i]@,
    ensures
        grid_pixels(a) == grid_pixels(b),
        shape_of(a) == shape_of(b),
    decreases a.len(),
{
    if a.len() > 0 {
        lemma_same_cells_same_pixels(a.drop_last(), b.drop_last());
        assert(a.last()@ == b.last()@);
    }
}

} // verus!
