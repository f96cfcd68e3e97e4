use vstd::prelude::*;

use crate::bpe::{bpe_encode, BpeTokenizer};
use crate::dataset::{flatten_rows, inputs_of, rows_of_width, targets_of};
use crate::items::{concat_items, copy_item, copy_items, pair_views, zip_items, TokenWindows};
use crate::windows::{
    input_window, lemma_window_count, row_views, sliding_windows, window_count, windows_spec,
};

verus! {

/// One training example of the native model: a window of token ids and the
/// window that follows it by one token.
#[derive(Clone, Debug)]
pub struct NativeGptItem {
    pub input_ids: Vec<u32>,
    pub target_ids: Vec<u32>,
}

impl View for NativeGptItem {
    type V = (Seq<u32>, Seq<u32>);

    open spec fn view(&self) -> (Seq<u32>, Seq<u32>) {
        (self.input_ids@, self.target_ids@)
    }
}

impl TokenWindows for NativeGptItem {
    fn from_windows(input_ids: Vec<u32>, target_ids: Vec<u32>) -> (res: Self) {
        NativeGptItem { input_ids, target_ids }
    }

    fn inputs(&self) -> (res: &Vec<u32>) {
        &self.input_ids
    }

    fn targets(&self) -> (res: &Vec<u32>) {
        &self.target_ids
    }
}

/// Where the examples are split: the first 80% (rounded down) train, the
/// rest test.
pub open spec fn split_point(len: nat) -> nat {
    len * 8 / 10
}

/// `len * 8 / 10`, computed without an intermediate that could overflow.
fn split_index(len: usize) -> (res: usize)
    ensures
        res == split_point(len as nat),
{
    let q = len / 10;
    let r = len % 10;
    assert(len * 8 / 10 == q * 8 + r * 8 / 10) by (nonlinear_arith)
        requires
            q == len / 10,
            r == len % 10,
    ;
    assert(q * 8 <= len) by (nonlinear_arith)
        requires
            q == len / 10,
    ;
    q * 8 + r * 8 / 10
}

/// A dataset of overlapping token windows cut from one text, which can be
/// split into a training part and a test part.
#[derive(Clone, Debug)]
pub struct NativeGptDataset {
    items: Vec<NativeGptItem>,
}

impl View for NativeGptDataset {
    type V = Seq<(Seq<u32>, Seq<u32>)>;

    closed spec fn view(&self) -> Seq<(Seq<u32>, Seq<u32>)> {
        pair_views(self.items@)
    }
}

impl NativeGptDataset {
    /// The first 80% of the examples (rounded down), in order.
    pub fn train(&self) -> (res: Self)
        ensures
            res@ == self@.take(split_point(self@.len()) as int),
            res@.len() * 10 <= self@.len() * 8 < (res@.len() + 1) * 10,
    {
        proof {
            lemma_split_ratio(self@.len());
        }
        let split = split_index(self.items.len());
        let items = copy_items(&self.items, 0, split);
        let res = NativeGptDataset { items };
        assert(res@ =~= self@.take(split as int));
        res
    }

    /// The examples after the first 80% (rounded down), in order.
    pub fn test(&self) -> (res: Self)
        ensures
            res@ == self@.skip(split_point(self@.len()) as int),
            res@.len() <= self@.len(),
            (self@.len() - res@.len()) * 10 <= self@.len() * 8 < (self@.len() - res@.len() + 1)
                * 10,
    {
        proof {
            lemma_split_ratio(self@.len());
        }
        let split = split_index(self.items.len());
        let items = copy_items(&self.items, split, self.items.len());
        let res = NativeGptDataset { items };
        assert(res@ =~= self@.skip(split as int));
        res
    }

    /// Cuts windows of `max_length` tokens, started every `stride` tokens,
    /// out of `token_ids`, each paired with the window one token further on.
    pub fn from_token_ids(token_ids: &Vec<u32>, max_length: usize, stride: usize) -> (res: Self)
        requires
            stride > 0,
            max_length <= token_ids.len(),
        ensures
            res@ == windows_spec(token_ids@, max_length as nat, stride as nat),
    {
        let (inputs, targets) = sliding_windows(token_ids, max_length, stride);
        assert(row_views(inputs@).len() == inputs@.len());
        assert(row_views(targets@).len() == targets@.len());
        let items = zip_items(&inputs, &targets);
        let res = NativeGptDataset { items };
        assert(res@ =~= windows_spec(token_ids@, max_length as nat, stride as nat));
        res
    }

    /// Encodes `txt` with the tokenizer and cuts it into windows as
    /// `from_token_ids` does.
    pub fn new(txt: &str, tokenizer: &BpeTokenizer, max_length: usize, stride: usize) -> (res: Self)
        requires
            stride > 0,
            max_length <= bpe_encode(tokenizer@, txt@).len(),
        ensures
            res@ == windows_spec(bpe_encode(tokenizer@, txt@), max_length as nat, stride as nat),
    {
        let token_ids = tokenizer.encode(txt);
        Self::from_token_ids(&token_ids, max_length, stride)
    }

    /// `new`, or `None` where the stride is zero or the text has fewer than
    /// `max_length` tokens.
    pub fn try_new(txt: &str, tokenizer: &BpeTokenizer, max_length: usize, stride: usize) -> (res:
        Option<Self>)
        ensures
            res is Some <==> (stride > 0 && max_length <= bpe_encode(tokenizer@, txt@).len()),
            res matches Some(d) ==> d@ == windows_spec(
                bpe_encode(tokenizer@, txt@),
                max_length as nat,
                stride as nat,
            ),
    {
        if stride == 0 {
            return None;
        }
        let token_ids = tokenizer.encode(txt);
        if max_length > token_ids.len() {
            return None;
        }
        Some(Self::new(txt, tokenizer, max_length, stride))
    }

    /// The example at `index`.
    pub fn index(&self, index: usize) -> (res: &NativeGptItem)
        requires
            index < self@.len(),
        ensures
            res@ == self@[index as int],
    {
        &self.items[index]
    }

    /// The number of examples.
    pub fn len(&self) -> (res: usize)
        ensures
            res == self@.len(),
    {
        self.items.len()
    }

    /// A copy of the example at `index`, or `None` past the end.
    pub fn get(&self, index: usize) -> (res: Option<NativeGptItem>)
        ensures
            res is Some <==> index < self@.len(),
            res matches Some(it) ==> it@ == self@[index as int],
    {
        if index < self.items.len() {
            Some(copy_item(&self.items[index]))
        } else {
            None
        }
    }
}

/// The training part and the test part together are the whole dataset, in
/// order, and the training part holds 80% of it, rounded down.
pub proof fn lemma_split_partitions(items: Seq<(Seq<u32>, Seq<u32>)>)
    ensures
        split_point(items.len()) <= items.len(),
        items.take(split_point(items.len()) as int) + items.skip(split_point(items.len()) as int)
            == items,
        items.take(split_point(items.len()) as int).len() == split_point(items.len()),
{
    let k = split_point(items.len());
    assert(k <= items.len()) by (nonlinear_arith)
        requires
            k == items.len() * 8 / 10,
    ;
    assert(items.take(k as int) + items.skip(k as int) =~= items);
}

/// The training part is 80% of the examples rounded down: the largest count
/// whose tenfold is at most eight times the whole.
pub proof fn lemma_split_ratio(len: nat)
    ensures
        split_point(len) * 10 <= len * 8 < (split_point(len) + 1) * 10,
        split_point(len) <= len,
{
    let k = split_point(len);
    assert(k * 10 <= len * 8 < (k + 1) * 10 && k <= len) by (nonlinear_arith)
        requires
            k == len * 8 / 10,
    ;
}

/// A batch of examples laid out for tensors: the input windows as the rows
/// of a `rows` by `columns` matrix, row after row, and the target windows one
/// after another.
pub struct NativeGptBatch {
    pub input_ids: Vec<u32>,
    pub rows: usize,
    pub columns: usize,
    pub target_ids: Vec<u32>,
}

/// Lays out batches of examples whose input windows have `max_length`
/// tokens.
#[derive(Clone, Copy, Debug)]
pub struct NativeGptDataBatcher {
    max_length: usize,
}

impl Default for NativeGptDataBatcher {
    /// A batcher for input windows of no tokens: the field's own default;
    /// `new` gives the configured 768.
    fn default() -> (res: Self)
        ensures
            res.max_length() == 0,
    {
        NativeGptDataBatcher { max_length: 0 }
    }
}

impl NativeGptDataBatcher {
    /// The number of tokens in an input window.
    pub closed spec fn max_length(&self) -> nat {
        self.max_length as nat
    }

    /// The number of tokens in an input window.
    pub fn window_length(&self) -> (res: usize)
        ensures
            res == self.max_length(),
    {
        self.max_length
    }

    /// A batcher for input windows of 768 tokens.
    pub fn new() -> (res: Self)
        ensures
            res.max_length() == 768,
    {
        NativeGptDataBatcher { max_length: 768 }
    }

    /// The same batcher for input windows of `max_length` tokens.
    pub fn with_max_length(self, max_length: usize) -> (res: Self)
        ensures
            res.max_length() == max_length,
    {
        NativeGptDataBatcher { max_length }
    }

    /// The input windows as the rows of a matrix with `max_length` columns,
    /// and the target windows laid end to end. A batch has at least one
    /// example.
    pub fn batch(&self, items: Vec<NativeGptItem>) -> (res: NativeGptBatch)
        requires
            items.len() > 0,
            rows_of_width(inputs_of(pair_views(items@)), self.max_length()),
        ensures
            res.rows == items.len(),
            res.columns == self.max_length(),
            res.input_ids@ == flatten_rows(inputs_of(pair_views(items@))),
            res.target_ids@ == flatten_rows(targets_of(pair_views(items@))),
    {
        let n = items.len();
        let (input_ids, target_ids) = concat_items(&items);
        NativeGptBatch { input_ids, rows: n, columns: self.max_length, target_ids }
    }
}

/// Rows of one width laid end to end form a row-major matrix: entry `c` of
/// row `r` stands at `r * width + c`.
pub proof fn lemma_row_major(rows: Seq<Seq<u32>>, width: nat)
    requires
        rows_of_width(rows, width),
    ensures
        flatten_rows(rows).len() == rows.len() * width,
        forall|r: int, c: int|
            0 <= r < rows.len() && 0 <= c < width ==> #[trigger] flatten_rows(rows)[r * width + c]
                == rows[r][c],
    decreases rows.len(),
{
    if rows.len() > 0 {
        let init = rows.drop_last();
        assert(rows_of_width(init, width)) by {
            assert forall|r: int| 0 <= r < init.len() implies #[trigger] init[r].len() == width by {
                assert(rows[r].len() == width);
            }
        }
        lemma_row_major(init, width);
        let n = rows.len();
        assert(rows.last().len() == width);
        assert((n - 1) * width + width == n * width) by (nonlinear_arith);
        assert forall|r: int, c: int| 0 <= r < rows.len() && 0 <= c < width implies #[trigger] flatten_rows(
            rows,
        )[r * width + c] == rows[r][c] by {
            if r < n - 1 {
                assert(r * width + c < (n - 1) * width) by (nonlinear_arith)
                    requires
                        0 <= r < n - 1,
                        0 <= c < width,
                ;
                assert(flatten_rows(init)[r * width + c] == init[r][c]);
            } else {
                assert(r * width == (n - 1) * width);
            }
        }
    }
}

/// The first `c` input windows of width `width` started every `width`
/// tokens.
spec fn tile_rows(tokens: Seq<u32>, width: nat, c: nat) -> Seq<Seq<u32>> {
    Seq::new(c, |j: int| input_window(tokens, width, width, j))
}

proof fn lemma_tiles_prefix(tokens: Seq<u32>, width: nat, c: nat)
    requires
        width > 0,
        c * width <= tokens.len(),
    ensures
        flatten_rows(tile_rows(tokens, width, c)) == tokens.take((c * width) as int),
    decreases c,
{
    let rows = tile_rows(tokens, width, c);
    if c == 0 {
        assert(tokens.take(0) =~= Seq::<u32>::empty());
        assert(flatten_rows(rows) == Seq::<u32>::empty());
        assert(c * width == 0) by (nonlinear_arith)
            requires
                c == 0,
        ;
    } else {
        let prev = (c - 1) as nat;
        assert(prev * width + width == c * width) by (nonlinear_arith)
            requires
                prev == c - 1,
        ;
        assert(prev * width >= 0) by (nonlinear_arith);
        lemma_tiles_prefix(tokens, width, prev);
        assert(rows.drop_last() =~= tile_rows(tokens, width, prev));
        assert(rows.last() == tokens.subrange((prev * width) as int, (prev * width + width) as int));
        assert(tokens.take((prev * width) as int) + tokens.subrange((prev * width) as int, (prev * width + width) as int)
            =~= tokens.take((c * width) as int));
        assert(flatten_rows(rows) == flatten_rows(rows.drop_last()) + rows.last());
        assert(flatten_rows(rows.drop_last()) == tokens.take((prev * width) as int));
    }
}

/// With the stride equal to the window length the input windows do not
/// overlap: laid end to end they are the start of the token sequence.
pub proof fn lemma_windows_tile(tokens: Seq<u32>, max_length: nat)
    requires
        max_length > 0,
    ensures
        ({
            let c = window_count(tokens.len(), max_length, max_length);
            &&& c * max_length <= tokens.len()
            &&& flatten_rows(inputs_of(windows_spec(tokens, max_length, max_length)))
                == tokens.take((c * max_length) as int)
        }),
{
    let c = window_count(tokens.len(), max_length, max_length);
    lemma_window_count(tokens.len(), max_length, max_length);
    if c > 0 {
        assert(((c - 1) as int * max_length) + max_length < tokens.len());
        assert((c - 1) * max_length + max_length == c * max_length) by (nonlinear_arith)
            requires
                c > 0,
        ;
    }
    lemma_tiles_prefix(tokens, max_length, c);
    assert(inputs_of(windows_spec(tokens, max_length, max_length)) =~= tile_rows(
        tokens,
        max_length,
        c,
    ));
}

} // verus!
