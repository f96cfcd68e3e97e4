use vstd::prelude::*;

verus! {

/// The width of one attention head when `d_out` output dimensions are
/// shared out evenly among `num_heads` heads.
pub fn head_dim(d_out: usize, num_heads: usize) -> (res: usize)
    requires
        num_heads > 0,
        d_out % num_heads == 0,
    ensures
        res * num_heads == d_out,
{
    let res = d_out / num_heads;
    assert(res * num_heads == d_out) by (nonlinear_arith)
        requires
            num_heads > 0,
            d_out % num_heads == 0,
            res == d_out / num_heads,
    ;
    res
}

} // verus!

verus! {

/// The (input, output) widths of the layers of a network whose successive
/// widths are `layer_sizes`: one layer between each two neighbours.
pub fn layer_shapes(layer_sizes: &[usize]) -> (res: Vec<(usize, usize)>)
    ensures
        res.len() == if layer_sizes.len() == 0 {
            0
        } else {
            layer_sizes.len() - 1
        },
        forall|i: int|
            0 <= i < res.len() ==> #[trigger] res[i] == (layer_sizes@[i], layer_sizes@[i + 1]),
{
    let mut res: Vec<(usize, usize)> = Vec::new();
    let n = layer_sizes.len();
    let mut i: usize = 1;
    while i < n
        invariant
            n == layer_sizes.len(),
            1 <= i,
            i <= n || n == 0,
            n == 0 ==> i == 1,
            res.len() == i - 1,
            forall|k: int|
                0 <= k < res.len() ==> #[trigger] res[k] == (layer_sizes@[k], layer_sizes@[k + 1]),
        decreases n - i,
    {
        res.push((layer_sizes[i - 1], layer_sizes[i]));
        i = i + 1;
    }
    res
}

} // verus!
