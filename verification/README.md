# lisa_rs

Inference for a hybrid language model, with or without a small drafting model beside it, on a
GPU, and an OpenAI-compatible server around it.

`src/` is a Verus library. It does no input or output and computes nothing on the GPU. It
decides: what every pass over the models is made of, which tokens a speculative generation
hands out, what a prompt looks like, what a request is answered. What it decides is stated in
contracts and proved.

- `format`, `cache`: weight files, and where they are found.
- `model`: the layers, the memory, and the plans that are run for a pass.
- `speculative`: drafting, verifying, and running prompts.
- `tokenizer`: which tokenizer files are used, the chat template, and reading tool calls back.
- `serve`: requests, responses, streams, the reuse of a conversation's state, statistics.
- `cli`: the command line.
- `text`, `json`: strings and JSON values, for the rest.

The central laws are in `speculative/laws.rs` and `serve/laws.rs`: whatever the drafter
proposes, or where there is none, the tokens that are handed out are those that the target
model chooses by itself; and whatever was served before, a request is answered with those that
it chooses behind the request's prompt. `tokenizer/laws.rs` has that tool calls are read back
from the prompt they were written to.

`app/` is the program: it opens files, talks to the GPU and to the network, draws the
dashboard, and asks the library what to do next. The kernels are read from the directory that
`LISA_SHADERS` names, or else from `shaders`.
