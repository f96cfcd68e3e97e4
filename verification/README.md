# llm_from_scratch

Verified building blocks of a small GPT-style language-model toolkit, written
in Verus.

- `src/` is the verified library: word-level tokenizers
  (`SimpleTokenizer`, `SimpleTokenizerV1`), the regular-expression word
  splitting they rely on, handles on tiktoken's byte-pair encodings
  (`BpeTokenizer`), sliding-window datasets (`GPTDataset`,
  `NativeGptDataset`) and their batch layouts, conversion between text and
  token ids (`TextTokenConverter`), and a few shape computations used by the
  models.
- `app/` is the program around it: the command line, file reading, and the
  burn models, which compute on floating-point tensors and are therefore not
  verified.
- `tests/` runs the library on concrete inputs.
