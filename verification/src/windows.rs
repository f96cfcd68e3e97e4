use vstd::prelude::*;

verus! {

/// How many windows of `max_length` tokens, started every `stride` tokens,
/// fit in `n` tokens when each window also needs the token after it: one for
/// every multiple of `stride` below `n - max_length`.
pub open spec fn window_count(n: nat, max_length: nat, stride: nat) -> nat {
    if n <= max_length || stride == 0 {
        0
    } else {
        ((n - max_length - 1) as nat / stride + 1) as nat
    }
}

/// The `j`-th input window: `max_length` tokens from `j * stride` on.
pub open spec fn input_window(tokens: Seq<u32>, max_length: nat, stride: nat, j: int) -> Seq<u32> {
    tokens.subrange(j * stride, j * stride + max_length)
}

/// The `j`-th target window: the input window moved one token on.
pub open spec fn target_window(tokens: Seq<u32>, max_length: nat, stride: nat, j: int) -> Seq<
    u32,
> {
    tokens.subrange(j * stride + 1, j * stride + 1 + max_length)
}

/// The input/target pairs of a token sequence, one per window start.
pub open spec fn windows_spec(tokens: Seq<u32>, max_length: nat, stride: nat) -> Seq<
    (Seq<u32>, Seq<u32>),
> {
    Seq::new(
        window_count(tokens.len(), max_length, stride),
        |j: int|
            (
                input_window(tokens, max_length, stride, j),
                target_window(tokens, max_length, stride, j),
            ),
    )
}

proof fn lemma_start_bound(j: int, stride: int, d: int)
    requires
        0 <= j <= d / stride,
        stride > 0,
        d >= 0,
    ensures
        j * stride <= d,
{
    assert(j * stride <= (d / stride) * stride) by (nonlinear_arith)
        requires
            0 <= j <= d / stride,
            stride > 0,
    ;
    assert((d / stride) * stride <= d) by (nonlinear_arith)
        requires
            stride > 0,
            d >= 0,
    ;
}

/// The window starts are exactly the multiples of `stride` below
/// `n - max_length`: every counted start is below it, and the next multiple
/// is not.
pub proof fn lemma_window_count(n: nat, max_length: nat, stride: nat)
    requires
        stride > 0,
    ensures
        forall|j: int|
            0 <= j < window_count(n, max_length, stride) ==> #[trigger] (j * stride) + max_length
                < n,
        window_count(n, max_length, stride) * stride + max_length >= n,
{
    let c = window_count(n, max_length, stride);
    if n > max_length {
        let d = n - max_length - 1;
        assert forall|j: int| 0 <= j < c implies #[trigger] (j * stride) + max_length < n by {
            lemma_start_bound(j, stride as int, d);
        }
        assert(c * stride >= n - max_length) by (nonlinear_arith)
            requires
                c == d / (stride as int) + 1,
                stride > 0,
                d >= 0,
                d == n - max_length - 1,
        ;
    }
}

/// Each target token is the token that follows the input token at the same
/// place: the target window is the input window moved on by one.
pub proof fn lemma_targets_follow_inputs(tokens: Seq<u32>, max_length: nat, stride: nat, j: int)
    requires
        stride > 0,
        0 <= j < window_count(tokens.len(), max_length, stride),
    ensures
        forall|k: int|
            0 <= k < max_length - 1 ==> #[trigger] target_window(tokens, max_length, stride, j)[k]
                == input_window(tokens, max_length, stride, j)[k + 1],
        max_length > 0 ==> target_window(tokens, max_length, stride, j)[max_length - 1]
            == tokens[j * stride + max_length],
{
    lemma_window_count(tokens.len(), max_length, stride);
    assert(j * stride + max_length < tokens.len());
    assert(j * stride >= 0) by (nonlinear_arith)
        requires
            j >= 0,
            stride > 0,
    ;
}

/// A copy of `v[start..end]`.
pub(crate) fn copy_range(v: &Vec<u32>, start: usize, end: usize) -> (res: Vec<u32>)
    requires
        start <= end <= v.len(),
    ensures
        res@ == v@.subrange(start as int, end as int),
{
    let mut res: Vec<u32> = Vec::new();
    let mut i: usize = start;
    while i < end
        invariant
            start <= i <= end <= v.len(),
            res@ =~= v@.subrange(start as int, i as int),
        decreases end - i,
    {
        res.push(v[i]);
        i = i + 1;
    }
    res
}

/// Appends `row` to `out`.
pub(crate) fn append_row(out: &mut Vec<u32>, row: &Vec<u32>)
    ensures
        final(out)@ == old(out)@ + row@,
{
    let ghost before = out@;
    let mut k: usize = 0;
    while k < row.len()
        invariant
            k <= row.len(),
            out@ =~= before + row@.take(k as int),
        decreases row.len() - k,
    {
        out.push(row[k]);
        k = k + 1;
    }
    assert(row@.take(row.len() as int) =~= row@);
}

/// The views of a vector of rows.
pub open spec fn row_views(rows: Seq<Vec<u32>>) -> Seq<Seq<u32>> {
    rows.map_values(|v: Vec<u32>| v@)
}

/// The input windows and the target windows of `tokens`, in order.
pub fn sliding_windows(tokens: &Vec<u32>, max_length: usize, stride: usize) -> (res: (
    Vec<Vec<u32>>,
    Vec<Vec<u32>>,
))
    requires
        stride > 0,
        max_length <= tokens.len(),
    ensures
        row_views(res.0@) == Seq::new(
            window_count(tokens.len() as nat, max_length as nat, stride as nat),
            |j: int| input_window(tokens@, max_length as nat, stride as nat, j),
        ),
        row_views(res.1@) == Seq::new(
            window_count(tokens.len() as nat, max_length as nat, stride as nat),
            |j: int| target_window(tokens@, max_length as nat, stride as nat, j),
        ),
{
    let n = tokens.len();
    let limit = n - max_length;
    let count: usize = if limit == 0 {
        0
    } else {
        (limit - 1) / stride + 1
    };
    proof {
        lemma_window_count(n as nat, max_length as nat, stride as nat);
    }
    assert(count == window_count(n as nat, max_length as nat, stride as nat));
    let ghost all_in = Seq::new(
        count as nat,
        |j: int| input_window(tokens@, max_length as nat, stride as nat, j),
    );
    let ghost all_t = Seq::new(
        count as nat,
        |j: int| target_window(tokens@, max_length as nat, stride as nat, j),
    );
    let mut inputs: Vec<Vec<u32>> = Vec::new();
    let mut targets: Vec<Vec<u32>> = Vec::new();
    let mut j: usize = 0;
    while j < count
        invariant
            n == tokens.len(),
            stride > 0,
            forall|k: int| 0 <= k < count ==> #[trigger] (k * stride) + max_length < n,
            j <= count,
            all_in == Seq::new(
                count as nat,
                |j: int| input_window(tokens@, max_length as nat, stride as nat, j),
            ),
            all_t == Seq::new(
                count as nat,
                |j: int| target_window(tokens@, max_length as nat, stride as nat, j),
            ),
            row_views(inputs@) =~= all_in.take(j as int),
            row_views(targets@) =~= all_t.take(j as int),
        decreases count - j,
    {
        assert((j as int * stride) + max_length < n);
        assert(j as int * stride >= 0) by (nonlinear_arith)
            requires
                j >= 0,
                stride > 0,
        ;
        let start = j * stride;
        let ghost before_in = inputs@;
        let ghost before_t = targets@;
        let input = copy_range(tokens, start, start + max_length);
        let target = copy_range(tokens, start + 1, start + 1 + max_length);
        assert(input@ == all_in[j as int]);
        assert(target@ == all_t[j as int]);
        inputs.push(input);
        targets.push(target);
        assert(row_views(inputs@) =~= row_views(before_in).push(all_in[j as int]));
        assert(row_views(targets@) =~= row_views(before_t).push(all_t[j as int]));
        assert(all_in.take(j + 1) =~= all_in.take(j as int).push(all_in[j as int]));
        assert(all_t.take(j + 1) =~= all_t.take(j as int).push(all_t[j as int]));
        j = j + 1;
    }
    assert(all_in.take(count as int) =~= all_in);
    assert(all_t.take(count as int) =~= all_t);
    (inputs, targets)
}

/// Each prefix of `sample` of one to `context_size` tokens, paired with the
/// token that follows it.
pub fn next_token_pairs(sample: &Vec<u32>, context_size: usize) -> (res: Vec<(Vec<u32>, u32)>)
    requires
        context_size < sample.len(),
    ensures
        res.len() == context_size,
        forall|i: int|
            0 <= i < context_size ==> #[trigger] res[i].0@ == sample@.take(i + 1) && res[i].1
                == sample@[i + 1],
{
    let mut res: Vec<(Vec<u32>, u32)> = Vec::new();
    let mut i: usize = 1;
    while i <= context_size
        invariant
            1 <= i <= context_size + 1,
            context_size < sample.len(),
            res.len() == i - 1,
            forall|k: int|
                0 <= k < i - 1 ==> #[trigger] res[k].0@ == sample@.take(k + 1) && res[k].1
                    == sample@[k + 1],
        decreases context_size + 1 - i,
    {
        let context = copy_range(sample, 0, i);
        res.push((context, sample[i]));
        i = i + 1;
    }
    res
}

} // verus!
