use vstd::prelude::*;

verus! {

/// What the native model's command line asks for.
#[derive(Debug)]
pub enum Commands {
    /// Train a model and write it under `output_path`.
    Train { output_path: String },
    /// Load the model under `model_path` and predict from `input_text`.
    Infer { model_path: String, input_text: String },
}

/// The parsed command line of the native model.
#[derive(Debug)]
pub struct Cli {
    pub command: Commands,
}

} // verus!
