# code2prompt_core (file processors)

The file processors of code2prompt, written in Verus: they turn the bytes of
a file into a compact text for a language-model prompt, chosen by the file's
extension.

- `src/file_processor/mod.rs`: the processor configuration, the
  `FileProcessor` trait, the choice of processor by extension.
- `src/file_processor/ipynb.rs`: the Jupyter notebook processor, the
  specification of its summary, and the laws proved of it.
- `src/file_processor/json.rs`: the JSON document model and the bridge from
  bytes to it through `serde_json`.
- `src/file_processor/text.rs`: decimal numerals and line endings.
- `src/file_processor/default.rs`: the raw-text processor.
- `app/`: the serde form of the configuration, its Python bindings, and
  notebook processing by path with `anyhow` errors and a logged fallback.
