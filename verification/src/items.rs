use vstd::prelude::*;

use crate::dataset::{flatten_rows, inputs_of, targets_of};
use crate::windows::{append_row, copy_range, row_views};

verus! {

/// A training example made of an input window and a target window of token
/// ids; its view is the pair of windows.
pub trait TokenWindows: Sized + View<V = (Seq<u32>, Seq<u32>)> {
    /// The example of these two windows.
    fn from_windows(input_ids: Vec<u32>, target_ids: Vec<u32>) -> (res: Self)
        ensures
            res@ == (input_ids@, target_ids@),
    ;

    /// The input window.
    fn inputs(&self) -> (res: &Vec<u32>)
        ensures
            res@ == self@.0,
    ;

    /// The target window.
    fn targets(&self) -> (res: &Vec<u32>)
        ensures
            res@ == self@.1,
    ;
}

/// The views of a sequence of examples.
pub open spec fn pair_views<T: View<V = (Seq<u32>, Seq<u32>)>>(items: Seq<T>) -> Seq<
    (Seq<u32>, Seq<u32>),
> {
    items.map_values(|it: T| it@)
}

/// A copy of an example.
pub(crate) fn copy_item<T: TokenWindows>(item: &T) -> (res: T)
    ensures
        res@ == item@,
{
    let inputs = item.inputs();
    let targets = item.targets();
    T::from_windows(copy_range(inputs, 0, inputs.len()), copy_range(targets, 0, targets.len()))
}

/// Copies the examples `items[start..end]`.
pub(crate) fn copy_items<T: TokenWindows>(items: &Vec<T>, start: usize, end: usize) -> (res: Vec<T>)
    requires
        start <= end <= items.len(),
    ensures
        pair_views(res@) == pair_views(items@).subrange(start as int, end as int),
{
    let ghost all = pair_views(items@);
    let mut res: Vec<T> = Vec::new();
    let mut i: usize = start;
    while i < end
        invariant
            start <= i <= end <= items.len(),
            all == pair_views(items@),
            pair_views(res@) =~= all.subrange(start as int, i as int),
        decreases end - i,
    {
        let ghost before = res@;
        let item = copy_item(&items[i]);
        res.push(item);
        assert(pair_views(res@) =~= pair_views(before).push(all[i as int]));
        i = i + 1;
    }
    res
}

/// Pairs up the input windows with the target windows.
pub(crate) fn zip_items<T: TokenWindows>(inputs: &Vec<Vec<u32>>, targets: &Vec<Vec<u32>>) -> (res:
    Vec<T>)
    requires
        inputs.len() == targets.len(),
    ensures
        pair_views(res@) == Seq::new(
            inputs.len() as nat,
            |j: int| (row_views(inputs@)[j], row_views(targets@)[j]),
        ),
{
    let ghost want = Seq::new(
        inputs.len() as nat,
        |j: int| (row_views(inputs@)[j], row_views(targets@)[j]),
    );
    let mut items: Vec<T> = Vec::new();
    let n = inputs.len();
    let mut j: usize = 0;
    while j < n
        invariant
            n == inputs.len(),
            n == targets.len(),
            j <= n,
            want == Seq::new(
                inputs.len() as nat,
                |j: int| (row_views(inputs@)[j], row_views(targets@)[j]),
            ),
            pair_views(items@) =~= want.take(j as int),
        decreases n - j,
    {
        let input_ids = copy_range(&inputs[j], 0, inputs[j].len());
        let target_ids = copy_range(&targets[j], 0, targets[j].len());
        assert(input_ids@ =~= inputs[j as int]@);
        assert(target_ids@ =~= targets[j as int]@);
        let ghost before = items@;
        let item = T::from_windows(input_ids, target_ids);
        assert(item@ == want[j as int]);
        items.push(item);
        assert(pair_views(items@) =~= pair_views(before).push(want[j as int]));
        assert(want.take(j + 1) =~= want.take(j as int).push(want[j as int]));
        j = j + 1;
    }
    assert(want.take(n as int) =~= want);
    items
}

/// The input windows laid end to end, and the same for the target windows.
pub(crate) fn concat_items<T: TokenWindows>(items: &Vec<T>) -> (res: (Vec<u32>, Vec<u32>))
    ensures
        res.0@ == flatten_rows(inputs_of(pair_views(items@))),
        res.1@ == flatten_rows(targets_of(pair_views(items@))),
{
    let ghost view = pair_views(items@);
    let mut inputs: Vec<u32> = Vec::new();
    let mut targets: Vec<u32> = Vec::new();
    let n = items.len();
    let mut j: usize = 0;
    while j < n
        invariant
            n == items.len(),
            j <= n,
            view == pair_views(items@),
            inputs@ == flatten_rows(inputs_of(view.take(j as int))),
            targets@ == flatten_rows(targets_of(view.take(j as int))),
        decreases n - j,
    {
        append_row(&mut inputs, items[j].inputs());
        append_row(&mut targets, items[j].targets());
        assert(inputs_of(view.take(j + 1)).drop_last() =~= inputs_of(view.take(j as int)));
        assert(targets_of(view.take(j + 1)).drop_last() =~= targets_of(view.take(j as int)));
        j = j + 1;
    }
    assert(view.take(n as int) =~= view);
    (inputs, targets)
}

} // verus!
