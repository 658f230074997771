use vstd::prelude::*;

verus! {

/// The product of two alpha values, each read as a fraction of 255, rounded to the nearest
/// step of 1/255.
pub open spec fn alpha_product(x: u8, y: u8) -> u8 {
    ((x * y + 128) / 255) as u8
}

/// The opacity of a layer of opacity `foreground` laid over one of opacity `background`.
pub open spec fn alpha_stacked(background: u8, foreground: u8) -> u8 {
    (background + alpha_product((255 - background) as u8, foreground)) as u8
}

proof fn lemma_alpha_product_bounds(x: u8, y: u8)
    ensures
        (x * y + 128) / 255 <= x,
        (x * y + 128) / 255 <= y,
        0 <= (x * y + 128) / 255 <= 255,
{
    assert((x * y + 128) / 255 <= x) by (nonlinear_arith)
        requires
            0 <= x <= 255,
            0 <= y <= 255,
    ;
    assert((x * y + 128) / 255 <= y) by (nonlinear_arith)
        requires
            0 <= x <= 255,
            0 <= y <= 255,
    ;
}

/// The alpha product of `x` and `y`, computed without a table.
pub fn alpha_multiply(x: u8, y: u8) -> (r: u8)
    ensures
        r == alpha_product(x, y),
        r as int == (x * y + 128) / 255,
{
    proof {
        lemma_alpha_product_bounds(x, y);
    }
    (((x as u16) * (y as u16) + 128) / 255) as u8
}

/// The opacity of `foreground` stacked over `background`, computed without a table.
pub fn alpha_stack(background: u8, foreground: u8) -> (r: u8)
    ensures
        r == alpha_stacked(background, foreground),
        r as int == background + (((255 - background) * foreground + 128) / 255),
{
    let rest = alpha_multiply(255 - background, foreground);
    proof {
        lemma_alpha_product_bounds((255 - background) as u8, foreground);
    }
    background + rest
}

/// The table of [`alpha_multiply`] for every pair of alpha values, indexed first by one
/// factor and then by the other.
pub fn create_alpha_multiplication_table() -> (table: Vec<Vec<u8>>)
    ensures
        table.len() == 256,
        forall|x: int| 0 <= x < 256 ==> #[trigger] table@[x].len() == 256,
        forall|x: int, y: int|
            0 <= x < 256 && 0 <= y < 256 ==> #[trigger] table@[x]@[y] == alpha_product(
                x as u8,
                y as u8,
            ),
{
    let mut table: Vec<Vec<u8>> = Vec::new();
    let mut x: u16 = 0;
    while x < 256
        invariant
            x <= 256,
            table.len() == x,
            forall|i: int| 0 <= i < x ==> #[trigger] table@[i].len() == 256,
            forall|i: int, j: int|
                0 <= i < x && 0 <= j < 256 ==> #[trigger] table@[i]@[j] == alpha_product(
                    i as u8,
                    j as u8,
                ),
        decreases 256 - x,
    {
        let mut row: Vec<u8> = Vec::new();
        let mut y: u16 = 0;
        while y < 256
            invariant
                x < 256,
                y <= 256,
                row.len() == y,
                forall|j: int| 0 <= j < y ==> #[trigger] row@[j] == alpha_product(x as u8, j as u8),
            decreases 256 - y,
        {
            row.push(alpha_multiply(x as u8, y as u8));
            y = y + 1;
        }
        table.push(row);
        x = x + 1;
    }
    table
}

/// The table of [`alpha_stack`] for every pair of alpha values, indexed first by the
/// background's alpha and then by the foreground's.
pub fn create_alpha_stacking_table() -> (table: Vec<Vec<u8>>)
    ensures
        table.len() == 256,
        forall|x: int| 0 <= x < 256 ==> #[trigger] table@[x].len() == 256,
        forall|x: int, y: int|
            0 <= x < 256 && 0 <= y < 256 ==> #[trigger] table@[x]@[y] == alpha_stacked(
                x as u8,
                y as u8,
            ),
{
    let mut table: Vec<Vec<u8>> = Vec::new();
    let mut x: u16 = 0;
    while x < 256
        invariant
            x <= 256,
            table.len() == x,
            forall|i: int| 0 <= i < x ==> #[trigger] table@[i].len() == 256,
            forall|i: int, j: int|
                0 <= i < x && 0 <= j < 256 ==> #[trigger] table@[i]@[j] == alpha_stacked(
                    i as u8,
                    j as u8,
                ),
        decreases 256 - x,
    {
        let mut row: Vec<u8> = Vec::new();
        let mut y: u16 = 0;
        while y < 256
            invariant
                x < 256,
                y <= 256,
                row.len() == y,
                forall|j: int| 0 <= j < y ==> #[trigger] row@[j] == alpha_stacked(x as u8, j as u8),
            decreases 256 - y,
        {
            row.push(alpha_stack(x as u8, y as u8));
            y = y + 1;
        }
        table.push(row);
        x = x + 1;
    }
    table
}

/// Multiplying by a zero alpha gives zero, multiplying by full opacity changes nothing, and
/// the order of the two factors does not matter.
pub proof fn lemma_alpha_product_laws(x: u8, y: u8)
    ensures
        alpha_product(0, x) == 0,
        alpha_product(255, x) == x,
        alpha_product(x, y) == alpha_product(y, x),
{
    assert((255 * x + 128) / 255 == x) by (nonlinear_arith)
        requires
            0 <= x <= 255,
    ;
    assert(x * y == y * x) by (nonlinear_arith);
}

/// Stacking over a fully transparent background changes nothing, stacking a fully opaque
/// foreground gives full opacity, and the order of the two layers does not matter.
pub proof fn lemma_alpha_stacking_laws(x: u8, y: u8)
    ensures
        alpha_stacked(0, x) == x,
        alpha_stacked(x, 255) == 255,
        alpha_stacked(x, y) == alpha_stacked(y, x),
{
    lemma_alpha_product_laws(x, y);
    lemma_alpha_product_laws((255 - x) as u8, 255);
    lemma_alpha_product_bounds((255 - x) as u8, y);
    lemma_alpha_product_bounds((255 - y) as u8, x);
    let a = x as int;
    let b = y as int;
    // a + floor(((255 - a) * b + 128) / 255) == floor((255 * a + 255 * b - a * b + 128) / 255)
    assert(a + ((255 - a) * b + 128) / 255 == (255 * a + 255 * b - a * b + 128) / 255)
        by (nonlinear_arith)
        requires
            0 <= a <= 255,
            0 <= b <= 255,
    ;
    assert(b + ((255 - b) * a + 128) / 255 == (255 * b + 255 * a - b * a + 128) / 255)
        by (nonlinear_arith)
        requires
            0 <= a <= 255,
            0 <= b <= 255,
    ;
    assert(a * b == b * a) by (nonlinear_arith);
}

} // verus!
