# mistral_plan

The decisions of an inference engine for language models, as a verified library:
which kernel is launched with which sizes and addresses, what a request is refused
with, how packed sequences are cut and joined, what is kept of a speculative step
and what is undone, and which configuration a GGUF file stands for. The numeric
work itself (matrix products, softmax, the kernels of a device) is not part of it.

- `src/gguf`: configurations and preprocessors of multimodal models, made from the
  metadata and the tensor shapes of a GGUF file and written as JSON.
- `src/paged`: attention over paged caches and writes into them, in native, fp8 and
  block-quantized form: checks, strides, addresses, workspaces, tables of scales.
- `src/ck_flash.rs`, `src/sync.rs`: when the flash kernel takes its operands, and
  when attention waits for its device.
- `src/qwen3_next`: the hybrid model Qwen3-Next: its layers and sizes, the forward
  pass, packed prompts, recurrent state, drafting several tokens, rolling back.
- `src/tensor.rs`, `src/json.rs`: what the proofs take for granted of `candle_core`
  and `serde_json`, one item for each function that is called.
- `app`: what stands around the library and is not verified.
- `tests`: the library on concrete values.

A refusal is a `Fault` with the text that a user sees. Contracts state that text,
and when it is owed.
