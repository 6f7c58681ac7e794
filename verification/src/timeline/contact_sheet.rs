//! Choice of the photos that stand for an album on its contact sheet, and where their
//! thumbnails go on the sheet.
use vstd::prelude::*;

verus! {

/// How many positions a selection of at most `max_count` out of `count` keeps.
pub open spec fn selected_count(count: nat, max_count: nat) -> nat {
    if count <= max_count {
        count
    } else {
        max_count
    }
}

/// The `index`-th evenly spaced position when `selected` of `count` positions are kept
/// (both ends included): `⌊index · (count − 1) / (selected − 1)⌋`, computed as quotient
/// and remainder of the span.
pub open spec fn spaced_position(count: nat, selected: nat, index: nat) -> int {
    let intervals = selected - 1;
    let span = count - 1;
    (span / intervals) * index + ((span % intervals) * index) / intervals
}

/// The positions `representative_indices` returns.
pub open spec fn representative_spec(count: nat, max_count: nat) -> Seq<int> {
    let selected = selected_count(count, max_count);
    if selected == 0 {
        Seq::empty()
    } else if selected == 1 {
        seq![0int]
    } else if selected == count {
        Seq::new(count, |i: int| i)
    } else {
        Seq::new(selected, |i: int| spaced_position(count, selected, i as nat))
    }
}

/// Inputs on which the evenly spaced arithmetic fits a machine word: the product of the
/// remainder and the largest index is representable.
pub open spec fn representative_fits(count: nat, max_count: nat) -> bool {
    let selected = selected_count(count, max_count);
    selected <= 1 || selected == count || ((count - 1) % (selected - 1) as int) * (selected
        - 1) <= usize::MAX
}

proof fn lemma_spaced_position_bounds(count: nat, selected: nat, index: nat)
    requires
        2 <= selected < count,
        index < selected,
    ensures
        0 <= spaced_position(count, selected, index) <= count - 1,
        (index == 0 ==> spaced_position(count, selected, index) == 0),
        (index == selected - 1 ==> spaced_position(count, selected, index) == count - 1),
        (count - 1) / ((selected - 1) as int) >= 1,
        ((count - 1) / ((selected - 1) as int)) * index <= count - 1,
{
    let intervals = (selected - 1) as int;
    let span = (count - 1) as int;
    let q = span / intervals;
    let r = span % intervals;
    let i = index as int;
    assert(span == q * intervals + r && 0 <= r < intervals) by (nonlinear_arith)
        requires
            intervals > 0,
            q == span / intervals,
            r == span % intervals,
    ;
    assert(q >= 1) by (nonlinear_arith)
        requires
            span >= intervals + 1,
            intervals > 0,
            q == span / intervals,
    ;
    assert(0 <= q * i <= q * intervals) by (nonlinear_arith)
        requires
            0 <= i <= intervals,
            q >= 1,
    ;
    assert(0 <= (r * i) / intervals <= r) by (nonlinear_arith)
        requires
            0 <= i <= intervals,
            0 <= r < intervals,
    ;
    if index == selected - 1 {
        assert((r * intervals) / intervals == r) by (nonlinear_arith)
            requires
                intervals > 0,
        ;
    }
}

proof fn lemma_spaced_position_increases(count: nat, selected: nat, index: nat)
    requires
        2 <= selected < count,
        index + 1 < selected,
    ensures
        spaced_position(count, selected, index) < spaced_position(count, selected, index + 1),
{
    let intervals = (selected - 1) as int;
    let span = (count - 1) as int;
    let q = span / intervals;
    let r = span % intervals;
    let i = index as int;
    lemma_spaced_position_bounds(count, selected, index);
    assert(r >= 0) by (nonlinear_arith)
        requires
            intervals > 0,
            r == span % intervals,
    ;
    assert(q * (i + 1) == q * i + q) by (nonlinear_arith);
    assert((r * i) / intervals <= (r * (i + 1)) / intervals) by (nonlinear_arith)
        requires
            intervals > 0,
            r >= 0,
            i >= 0,
    ;
}

/// Select up to `max_count` evenly spaced positions while retaining both endpoints.
pub fn representative_indices(count: usize, max_count: usize) -> (indices: Vec<usize>)
    requires
        representative_fits(count as nat, max_count as nat),
    ensures
        indices@.len() == representative_spec(count as nat, max_count as nat).len(),
        forall|i: int|
            0 <= i < indices@.len() ==> indices@[i] as int == representative_spec(
                count as nat,
                max_count as nat,
            )[i],
{
    let chosen = if count <= max_count {
        count
    } else {
        max_count
    };
    let selected_count = chosen;
    if selected_count == 0 {
        Vec::new()
    } else if selected_count == 1 {
        let mut v = Vec::new();
        v.push(0);
        v
    } else if selected_count == count {
        let mut v: Vec<usize> = Vec::new();
        let mut i: usize = 0;
        while i < count
            invariant
                i <= count,
                v@.len() == i,
                forall|j: int| 0 <= j < i ==> v@[j] as int == j,
            decreases count - i,
        {
            v.push(i);
            i = i + 1;
        }
        v
    } else {
        let intervals = selected_count - 1;
        let span = count - 1;
        let quotient = span / intervals;
        let remainder = span % intervals;
        let mut v: Vec<usize> = Vec::new();
        let mut index: usize = 0;
        while index < selected_count
            invariant
                2 <= selected_count < count,
                selected_count as nat == self::selected_count(count as nat, max_count as nat),
                intervals == selected_count - 1,
                span == count - 1,
                quotient == span / intervals,
                remainder == span % intervals,
                remainder * intervals <= usize::MAX,
                index <= selected_count,
                v@.len() == index,
                forall|j: int|
                    0 <= j < index ==> v@[j] as int == spaced_position(
                        count as nat,
                        selected_count as nat,
                        j as nat,
                    ),
            decreases selected_count - index,
        {
            proof {
                lemma_spaced_position_bounds(count as nat, selected_count as nat, index as nat);
                assert(remainder * index <= remainder * intervals) by (nonlinear_arith)
                    requires
                        index <= intervals,
                        remainder >= 0,
                ;
            }
            let position = quotient * index + remainder * index / intervals;
            v.push(position);
            index = index + 1;
        }
        v
    }
}

/// The selection has `min(count, max_count)` positions, strictly increasing, all below
/// `count`; it starts at the first position and, when it keeps two or more, ends at the
/// last one.
pub proof fn lemma_representative_shape(count: nat, max_count: nat)
    ensures
        ({
            let s = representative_spec(count, max_count);
            &&& s.len() == selected_count(count, max_count)
            &&& forall|i: int, j: int| 0 <= i < j < s.len() ==> s[i] < s[j]
            &&& forall|i: int| 0 <= i < s.len() ==> 0 <= #[trigger] s[i] < count
            &&& s.len() > 0 ==> s[0] == 0
            &&& s.len() >= 2 ==> s[s.len() - 1] == count - 1
        }),
{
    let s = representative_spec(count, max_count);
    let selected = selected_count(count, max_count);
    if selected >= 2 && selected < count {
        assert forall|i: int| 0 <= i < s.len() implies 0 <= #[trigger] s[i] < count by {
            lemma_spaced_position_bounds(count, selected, i as nat);
        }
        assert forall|i: int, j: int| 0 <= i < j < s.len() implies s[i] < s[j] by {
            lemma_spaced_increasing_range(count, selected, i as nat, j as nat);
        }
        lemma_spaced_position_bounds(count, selected, 0);
        lemma_spaced_position_bounds(count, selected, (selected - 1) as nat);
    }
}

proof fn lemma_spaced_increasing_range(count: nat, selected: nat, i: nat, j: nat)
    requires
        2 <= selected < count,
        i < j < selected,
    ensures
        spaced_position(count, selected, i) < spaced_position(count, selected, j),
    decreases j - i,
{
    lemma_spaced_position_increases(count, selected, (j - 1) as nat);
    if i < j - 1 {
        lemma_spaced_increasing_range(count, selected, i, (j - 1) as nat);
    }
}


/// `(a + r) / d` is `a / d` or one more, for a remainder-sized `r`.
proof fn lemma_div_step(a: int, r: int, d: int)
    requires
        d > 0,
        a >= 0,
        0 <= r < d,
    ensures
        a / d <= (a + r) / d <= a / d + 1,
{
    vstd::arithmetic::div_mod::lemma_fundamental_div_mod(a, d);
    let x = a / d;
    let y = a % d;
    assert(0 <= y < d) by {
        vstd::arithmetic::div_mod::lemma_mod_bound(a, d);
    }
    assert(a + r == d * x + (y + r));
    if y + r < d {
        vstd::arithmetic::div_mod::lemma_div_multiples_vanish_fancy(x, y + r, d);
    } else {
        assert(a + r == d * (x + 1) + (y + r - d)) by (nonlinear_arith)
            requires
                a + r == d * x + (y + r),
        ;
        vstd::arithmetic::div_mod::lemma_div_multiples_vanish_fancy(x + 1, y + r - d, d);
    }
}

/// The spaced position as the floor of a fraction of the span.
proof fn lemma_spaced_position_floor(count: nat, selected: nat, index: nat)
    requires
        2 <= selected < count,
    ensures
        spaced_position(count, selected, index) == (index * (count - 1)) / ((selected - 1) as int),
{
    let intervals = (selected - 1) as int;
    let span = (count - 1) as int;
    let q = span / intervals;
    let r = span % intervals;
    let i = index as int;
    vstd::arithmetic::div_mod::lemma_fundamental_div_mod(span, intervals);
    assert(i * span == r * i + (q * i) * intervals) by (nonlinear_arith)
        requires
            span == intervals * q + r,
    ;
    vstd::arithmetic::div_mod::lemma_hoist_over_denominator(r * i, q * i, intervals as nat);
}

/// The positions are evenly spaced: when two or more are kept, the `i`-th of `k` is
/// `⌊i · (count − 1) / (k − 1)⌋`, so consecutive positions lie `⌊(count − 1) / (k − 1)⌋`
/// or one more apart.
pub proof fn lemma_representative_evenly_spaced(count: nat, max_count: nat)
    ensures
        ({
            let s = representative_spec(count, max_count);
            let k = s.len() as int;
            let gap = (count - 1) / (k - 1);
            k >= 2 ==> {
                &&& forall|i: int| 0 <= i < k ==> #[trigger] s[i] == (i * (count - 1)) / (k - 1)
                &&& forall|i: int| 0 <= i < k - 1 ==> gap <= #[trigger] s[i + 1] - s[i] <= gap + 1
            }
        }),
{
    let s = representative_spec(count, max_count);
    let selected = selected_count(count, max_count);
    let k = s.len() as int;
    if selected >= 2 {
        let d = (count - 1) as int;
        let intervals = (selected - 1) as int;
        if selected == count {
            assert forall|i: int| 0 <= i < k implies #[trigger] s[i] == (i * (count - 1)) / (k - 1) by {
                assert(i * d == d * i + 0) by (nonlinear_arith);
                vstd::arithmetic::div_mod::lemma_div_multiples_vanish_fancy(i, 0, d);
            }
            vstd::arithmetic::div_mod::lemma_div_multiples_vanish_fancy(1, 0, d);
            assert(d / d == 1);
        } else {
            assert forall|i: int| 0 <= i < k implies #[trigger] s[i] == (i * (count - 1)) / (k - 1) by {
                lemma_spaced_position_floor(count, selected, i as nat);
            }
            let q = d / intervals;
            let r = d % intervals;
            vstd::arithmetic::div_mod::lemma_fundamental_div_mod(d, intervals);
            assert(0 <= r < intervals) by {
                vstd::arithmetic::div_mod::lemma_mod_bound(d, intervals);
            }
            assert forall|i: int| 0 <= i < k - 1 implies q <= #[trigger] s[i + 1] - s[i] <= q + 1 by {
                assert(s[i] == spaced_position(count, selected, i as nat));
                assert(s[i + 1] == spaced_position(count, selected, (i + 1) as nat));
                assert(q * (i + 1) == q * i + q) by (nonlinear_arith);
                assert(r * (i + 1) == r * i + r) by (nonlinear_arith);
                assert(r * i >= 0) by (nonlinear_arith)
                    requires
                        r >= 0,
                        i >= 0,
                ;
                lemma_div_step(r * i, r, intervals);
            }
        }
    }
}

/// The side of a square cell of a contact sheet, in pixels.
pub const CELL_SIZE: u32 = 224;

/// The most cells in a row of a contact sheet.
pub const MAX_COLUMNS: usize = 6;

/// The JPEG quality a contact sheet is written with.
pub const JPEG_QUALITY: u8 = 88;

/// The rows a sheet of `count` cells needs.
pub open spec fn sheet_rows(count: nat) -> nat {
    (count + 5) / 6
}

/// The size of a sheet of `count` cells: at most six columns, as many rows as needed.
pub open spec fn sheet_size_spec(count: nat) -> (nat, nat) {
    let columns = if count < 6 {
        count
    } else {
        6
    };
    (columns * 224, sheet_rows(count) * 224)
}

/// The size in pixels of a contact sheet of `count` thumbnails; an error for none.
pub fn sheet_size(count: usize) -> (r: Result<(u32, u32), String>)
    requires
        sheet_rows(count as nat) * 224 <= u32::MAX,
    ensures
        count == 0 <==> r is Err,
        r matches Err(e) ==> e@ == "cannot render a contact sheet without thumbnails"@,
        r matches Ok((w, h)) ==> (w as nat, h as nat) == sheet_size_spec(count as nat),
{
    if count == 0 {
        return Err("cannot render a contact sheet without thumbnails".to_owned());
    }
    let columns: u32 = if count < MAX_COLUMNS {
        count as u32
    } else {
        MAX_COLUMNS as u32
    };
    let rows: usize = count / MAX_COLUMNS + if count % MAX_COLUMNS == 0 {
        0
    } else {
        1
    };
    assert(rows == sheet_rows(count as nat));
    assert(rows * 224 <= u32::MAX);
    let rows32 = rows as u32;
    Ok((columns * CELL_SIZE, rows32 * CELL_SIZE))
}

/// Where a thumbnail of the given size is placed: centred in cell `index`, cells filling
/// rows of six from the top left.
pub open spec fn cell_origin_spec(index: nat, width: nat, height: nat) -> (nat, nat) {
    (((index % 6) * 224 + (224 - width) / 2) as nat, ((index / 6) * 224 + (224 - height) / 2) as nat)
}

/// The top-left corner of the thumbnail in cell `index` of a sheet.
pub fn cell_origin(index: usize, width: u32, height: u32) -> (r: (u32, u32))
    requires
        width <= CELL_SIZE,
        height <= CELL_SIZE,
        (index as nat / 6 + 1) * 224 <= u32::MAX,
    ensures
        (r.0 as nat, r.1 as nat) == cell_origin_spec(index as nat, width as nat, height as nat),
        r.0 + width <= 6 * 224,
        r.1 + height <= (index as nat / 6 + 1) * 224,
{
    let column = (index % MAX_COLUMNS) as u32;
    let row_index = index / MAX_COLUMNS;
    assert((row_index + 1) * 224 <= u32::MAX);
    assert(row_index * 224 <= u32::MAX) by (nonlinear_arith)
        requires
            (row_index + 1) * 224 <= u32::MAX,
    ;
    let row = row_index as u32;
    assert(column * 224 + 224 <= 6 * 224) by (nonlinear_arith)
        requires
            column < 6,
    ;
    let x = column * CELL_SIZE + (CELL_SIZE - width) / 2;
    let y = row * CELL_SIZE + (CELL_SIZE - height) / 2;
    (x, y)
}

} // verus!
