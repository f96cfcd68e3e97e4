use vstd::prelude::*;

use crate::bpe::{bpe_encode, BpeTokenizer};
use crate::items::{concat_items, copy_item, pair_views, zip_items, TokenWindows};
use crate::windows::{row_views, sliding_windows, windows_spec};

verus! {

/// The sequences one after another.
pub open spec fn flatten_rows(rows: Seq<Seq<u32>>) -> Seq<u32>
    decreases rows.len(),
{
    if rows.len() == 0 {
        Seq::empty()
    } else {
        flatten_rows(rows.drop_last()) + rows.last()
    }
}

/// Every row has `width` entries.
pub open spec fn rows_of_width(rows: Seq<Seq<u32>>, width: nat) -> bool {
    forall|r: int| 0 <= r < rows.len() ==> #[trigger] rows[r].len() == width
}

/// The input windows of a sequence of input/target pairs.
pub open spec fn inputs_of(items: Seq<(Seq<u32>, Seq<u32>)>) -> Seq<Seq<u32>> {
    items.map_values(|it: (Seq<u32>, Seq<u32>)| it.0)
}

/// The target windows of a sequence of input/target pairs.
pub open spec fn targets_of(items: Seq<(Seq<u32>, Seq<u32>)>) -> Seq<Seq<u32>> {
    items.map_values(|it: (Seq<u32>, Seq<u32>)| it.1)
}

/// One training example: a window of token ids and the window that follows
/// it by one token.
#[derive(Clone, Debug)]
pub struct GPTItem {
    pub input_ids: Vec<u32>,
    pub target_ids: Vec<u32>,
}

impl View for GPTItem {
    type V = (Seq<u32>, Seq<u32>);

    open spec fn view(&self) -> (Seq<u32>, Seq<u32>) {
        (self.input_ids@, self.target_ids@)
    }
}

impl TokenWindows for GPTItem {
    fn from_windows(input_ids: Vec<u32>, target_ids: Vec<u32>) -> (res: Self) {
        GPTItem { input_ids, target_ids }
    }

    fn inputs(&self) -> (res: &Vec<u32>) {
        &self.input_ids
    }

    fn targets(&self) -> (res: &Vec<u32>) {
        &self.target_ids
    }
}

/// A dataset of overlapping token windows cut from one text.
pub struct GPTDataset {
    items: Vec<GPTItem>,
}

impl View for GPTDataset {
    type V = Seq<(Seq<u32>, Seq<u32>)>;

    closed spec fn view(&self) -> Seq<(Seq<u32>, Seq<u32>)> {
        pair_views(self.items@)
    }
}

impl GPTDataset {
    /// Cuts windows of `max_length` tokens, started every `stride` tokens,
    /// out of `token_ids`, each paired with the window one token further on.
    pub fn from_token_ids(token_ids: &Vec<u32>, max_length: usize, stride: usize) -> (res: Self)
        requires
            stride > 0,
            max_length <= token_ids.len(),
        ensures
            res@ == windows_spec(token_ids@, max_length as nat, stride as nat),
    {
        let (inputs, targets) = sliding_windows(token_ids, max_length, stride);
        assert(row_views(inputs@).len() == inputs@.len());
        assert(row_views(targets@).len() == targets@.len());
        let items = zip_items(&inputs, &targets);
        let res = GPTDataset { items };
        assert(res@ =~= windows_spec(token_ids@, max_length as nat, stride as nat));
        res
    }

    /// Encodes `txt` with the tokenizer and cuts it into windows as
    /// `from_token_ids` does.
    pub fn create(txt: &str, tokenizer: &BpeTokenizer, max_length: usize, stride: usize) -> (res:
        Self)
        requires
            stride > 0,
            max_length <= bpe_encode(tokenizer@, txt@).len(),
        ensures
            res@ == windows_spec(bpe_encode(tokenizer@, txt@), max_length as nat, stride as nat),
    {
        let token_ids = tokenizer.encode(txt);
        Self::from_token_ids(&token_ids, max_length, stride)
    }

    /// `create`, or `None` where the stride is zero or the text has fewer
    /// than `max_length` tokens.
    pub fn try_create(txt: &str, tokenizer: &BpeTokenizer, max_length: usize, stride: usize) -> (res:
        Option<Self>)
        ensures
            res is Some <==> (stride > 0 && max_length <= bpe_encode(tokenizer@, txt@).len()),
            res matches Some(d) ==> d@ == windows_spec(
                bpe_encode(tokenizer@, txt@),
                max_length as nat,
                stride as nat,
            ),
    {
        if stride == 0 {
            return None;
        }
        let token_ids = tokenizer.encode(txt);
        if max_length > token_ids.len() {
            return None;
        }
        Some(Self::create(txt, tokenizer, max_length, stride))
    }

    /// The example at `index`.
    pub fn index(&self, index: usize) -> (res: &GPTItem)
        requires
            index < self@.len(),
        ensures
            res@ == self@[index as int],
    {
        &self.items[index]
    }

    /// The number of examples.
    pub fn len(&self) -> (res: usize)
        ensures
            res == self@.len(),
    {
        self.items.len()
    }

    /// A copy of the example at `index`, or `None` past the end.
    pub fn get(&self, index: usize) -> (res: Option<GPTItem>)
        ensures
            res is Some <==> index < self@.len(),
            res matches Some(it) ==> it@ == self@[index as int],
    {
        if index < self.items.len() {
            Some(copy_item(&self.items[index]))
        } else {
            None
        }
    }
}

/// A batch of examples laid out for tensors: the input windows as the rows
/// of a `rows` by `columns` matrix, row after row, and the target windows in
/// a matrix of the same shape.
pub struct GPTBatch {
    pub input_ids: Vec<u32>,
    pub target_ids: Vec<u32>,
    pub rows: usize,
    pub columns: usize,
}

/// Concatenates the windows of a batch of examples.
pub struct GPTBatcher {}

impl GPTBatcher {
    /// The input windows and the target windows of `items`, each laid end to
    /// end as the rows of a matrix as wide as one window. A batch has at
    /// least one example, and all its windows have the same width.
    pub fn batch(&self, items: Vec<GPTItem>) -> (res: GPTBatch)
        requires
            items.len() > 0,
            rows_of_width(inputs_of(pair_views(items@)), items[0].input_ids.len() as nat),
            rows_of_width(targets_of(pair_views(items@)), items[0].input_ids.len() as nat),
        ensures
            res.rows == items.len(),
            res.columns == items[0].input_ids.len(),
            res.input_ids@ == flatten_rows(inputs_of(pair_views(items@))),
            res.target_ids@ == flatten_rows(targets_of(pair_views(items@))),
    {
        let (input_ids, target_ids) = concat_items(&items);
        let rows = items.len();
        let columns = items[0].input_ids.len();
        GPTBatch { input_ids, target_ids, rows, columns }
    }
}

} // verus!
