# uzu_engine

The verified core of an inference engine for language models.

- `src/engine` decides, step by step, what a token stream does: prefill, decoding, speculation,
  grammar, and what is left behind when a stream is closed.
- `src/encodable_block` plans blocks of a model: weights, mixtures of experts, normalization.
- `src/backends` validates and dispatches matrix multiplications, shares device memory, and lays out
  attention.
- `src/build` generates the code that binds kernels: it reads kernel functions, evaluates their
  constraints, and writes what is compiled.
- `src/config` and `src/data_type` hold the formats of weights.

What depends on floating point, files, processes or a device stands in `app`. The code of outside
crates is called through small functions whose contracts are believed, not proved; each says so.
