use llm_from_scratch::{
    batch_limit_reached, head_dim, next_token_pairs, sliding_windows, BpeTokenizer, GPTBatcher, GPTDataset, GPTItem,
    NativeGptDataBatcher, NativeGptDataset, NativeGptItem,
};

fn tokens(n: u32) -> Vec<u32> {
    (1..=n).collect()
}

#[test]
fn windows_start_every_stride() {
    let (inputs, targets) = sliding_windows(&tokens(10), 4, 2);
    assert_eq!(inputs, vec![vec![1, 2, 3, 4], vec![3, 4, 5, 6], vec![5, 6, 7, 8]]);
    assert_eq!(targets, vec![vec![2, 3, 4, 5], vec![4, 5, 6, 7], vec![6, 7, 8, 9]]);
}

#[test]
fn windows_with_stride_equal_to_length_do_not_overlap() {
    let (inputs, targets) = sliding_windows(&tokens(9), 4, 4);
    assert_eq!(inputs, vec![vec![1, 2, 3, 4], vec![5, 6, 7, 8]]);
    assert_eq!(targets, vec![vec![2, 3, 4, 5], vec![6, 7, 8, 9]]);
}

#[test]
fn no_window_when_text_is_exactly_one_window_long() {
    let (inputs, targets) = sliding_windows(&tokens(4), 4, 1);
    assert!(inputs.is_empty());
    assert!(targets.is_empty());
}

#[test]
fn gpt_dataset_from_token_ids() {
    let ds = GPTDataset::from_token_ids(&tokens(6), 2, 1);
    assert_eq!(ds.len(), 4);
    assert_eq!(ds.index(1).input_ids, vec![2, 3]);
    assert_eq!(ds.index(1).target_ids, vec![3, 4]);
    let last = ds.get(3).unwrap();
    assert_eq!(last.input_ids, vec![4, 5]);
    assert_eq!(last.target_ids, vec![5, 6]);
    assert!(ds.get(4).is_none());
}

#[test]
fn gpt_batcher_lays_windows_end_to_end() {
    let items = vec![
        GPTItem { input_ids: vec![1, 2], target_ids: vec![2, 3] },
        GPTItem { input_ids: vec![3, 4], target_ids: vec![4, 5] },
    ];
    let batch = GPTBatcher {}.batch(items);
    assert_eq!(batch.rows, 2);
    assert_eq!(batch.columns, 2);
    assert_eq!(batch.input_ids, vec![1, 2, 3, 4]);
    assert_eq!(batch.target_ids, vec![2, 3, 4, 5]);
}

#[test]
fn native_dataset_splits_eighty_twenty() {
    let ds = NativeGptDataset::from_token_ids(&tokens(11), 1, 1);
    assert_eq!(ds.len(), 10);
    let train = ds.train();
    let test = ds.test();
    assert_eq!(train.len(), 8);
    assert_eq!(test.len(), 2);
    assert_eq!(train.get(0).unwrap().input_ids, vec![1]);
    assert_eq!(test.get(0).unwrap().input_ids, vec![9]);
    assert_eq!(test.get(1).unwrap().target_ids, vec![11]);
}

#[test]
fn native_split_rounds_down() {
    let ds = NativeGptDataset::from_token_ids(&tokens(8), 1, 1);
    assert_eq!(ds.len(), 7);
    assert_eq!(ds.train().len(), 5);
    assert_eq!(ds.test().len(), 2);
    let empty = NativeGptDataset::from_token_ids(&tokens(1), 1, 1);
    assert_eq!(empty.train().len(), 0);
    assert_eq!(empty.test().len(), 0);
}

#[test]
fn native_batcher_makes_row_major_matrix() {
    let items = vec![
        NativeGptItem { input_ids: vec![1, 2, 3], target_ids: vec![2, 3, 4] },
        NativeGptItem { input_ids: vec![5, 6, 7], target_ids: vec![6, 7, 8] },
    ];
    let batch = NativeGptDataBatcher::new().with_max_length(3).batch(items);
    assert_eq!(batch.rows, 2);
    assert_eq!(batch.columns, 3);
    assert_eq!(batch.input_ids, vec![1, 2, 3, 5, 6, 7]);
    assert_eq!(batch.target_ids, vec![2, 3, 4, 6, 7, 8]);
}

#[test]
fn new_batcher_expects_768_tokens() {
    let items = vec![NativeGptItem { input_ids: vec![0; 768], target_ids: vec![1; 768] }];
    let batch = NativeGptDataBatcher::new().batch(items);
    assert_eq!(batch.columns, 768);
    assert_eq!(batch.input_ids.len(), 768);
}

#[test]
fn default_batcher_expects_empty_windows() {
    let batcher = NativeGptDataBatcher::default();
    assert_eq!(batcher.window_length(), 0);
    let items = vec![NativeGptItem { input_ids: vec![], target_ids: vec![3] }];
    let batch = batcher.batch(items);
    assert_eq!(batch.rows, 1);
    assert_eq!(batch.columns, 0);
    assert!(batch.input_ids.is_empty());
    assert_eq!(batch.target_ids, vec![3]);
}

#[test]
fn next_token_pairs_of_sample() {
    let pairs = next_token_pairs(&vec![290, 4920, 2241, 287, 257], 4);
    assert_eq!(
        pairs,
        vec![
            (vec![290], 4920),
            (vec![290, 4920], 2241),
            (vec![290, 4920, 2241], 287),
            (vec![290, 4920, 2241, 287], 257),
        ]
    );
}

#[test]
fn head_dim_divides_output() {
    assert_eq!(head_dim(768, 12), 64);
    assert_eq!(head_dim(2, 2), 1);
}

#[test]
fn dataset_from_text_uses_gpt2_tokens() {
    let tok = BpeTokenizer::get_encoding("gpt2").unwrap();
    let ids = tok.encode("Hello, world! Hello, world!");
    let ds = GPTDataset::create("Hello, world! Hello, world!", &tok, 2, 2);
    let direct = GPTDataset::from_token_ids(&ids, 2, 2);
    assert_eq!(ds.len(), direct.len());
    for i in 0..ds.len() {
        assert_eq!(ds.index(i).input_ids, direct.index(i).input_ids);
        assert_eq!(ds.index(i).target_ids, direct.index(i).target_ids);
    }
    assert_eq!(ds.index(0).input_ids, ids[0..2].to_vec());
}

#[test]
fn try_create_refuses_short_text_and_zero_stride() {
    let tok = BpeTokenizer::get_encoding("gpt2").unwrap();
    assert!(GPTDataset::try_create("Hello", &tok, 5, 1).is_none());
    assert!(GPTDataset::try_create("Hello, world! Hello", &tok, 2, 0).is_none());
    assert!(GPTDataset::try_create("Hello, world! Hello", &tok, 2, 1).is_some());
    assert!(NativeGptDataset::try_new("Hello", &tok, 5, 1).is_none());
    assert!(NativeGptDataset::try_new("Hello, world! Hello", &tok, 2, 3).is_some());
}

#[test]
fn layer_shapes_pair_neighbouring_sizes() {
    let shapes = llm_from_scratch::layer_shapes(&[3, 3, 3, 3, 3, 1]);
    assert_eq!(shapes, vec![(3, 3), (3, 3), (3, 3), (3, 3), (3, 1)]);
    assert!(llm_from_scratch::layer_shapes(&[]).is_empty());
    assert!(llm_from_scratch::layer_shapes(&[4]).is_empty());
}

#[test]
fn loss_average_stops_at_the_batch_limit() {
    assert!(!batch_limit_reached(1, None));
    assert!(!batch_limit_reached(u32::MAX, None));
    assert!(!batch_limit_reached(4, Some(5)));
    assert!(batch_limit_reached(5, Some(5)));
    assert!(batch_limit_reached(6, Some(5)));
    assert!(batch_limit_reached(1, Some(0)));
}
