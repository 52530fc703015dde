# rvllm

Planning for text models on a GPU: which bytes of a checkpoint go to the
device, which kernels run on which buffers in which order, and what is refused
before anything runs.

* `src/` is the library. Every function there is verified with Verus against
  its contract. A planner returns a program: a list of steps with what it
  reports, if anything.
  What a planner asks of sizes and addresses has a function `check_..` that
  tells whether it holds.
* `tests/` runs the library on concrete models.
* `app/` runs programs on a driver, reads files and the environment, and does
  what needs floating point.

| Module | What it holds |
| --- | --- |
| `formats`, `weight_bytes` | number formats bit by bit, and conversions of weights |
| `tensor`, `json`, `text` | tensor directories, documents, messages |
| `limits` | sizes that may be too large to count |
| `loader` | architectures, weight inventories, shards, uploads |
| `runtime::step`, `runtime::footprint` | programs, and what their steps touch |
| `runtime::gemma4_nvfp4_bring_up` | the forward path of the base model |
| `runtime::gemma4_drafter` | the drafter and its shadow cache |
| `runtime::gemma4_spec_primitives` | verifying drafted tokens |
| `runtime::audio_preprocess` | framing of audio |
