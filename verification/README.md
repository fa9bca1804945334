# warpllm

The core of warpllm, an AI gateway that routes OpenAI-compatible requests to
providers, written in Verus: each function states its behaviour as a
contract, and Verus proves it.

- `registry`: the provider/model roster (`specs.rs`), loading it (`load`,
  `decode`), the hygiene rules a roster is held to (`lint`), and the exact-match
  lookup (`resolve`, `fetch_model`).
- `error`: the flat error enum, its codes, origins, messages and wire form.
- `gateway`: classifying an upstream failure from its envelope, strongest
  signal first (`classify`, `openai_compat`).
- `balancer`, `balanced`: smooth weighted round-robin, with the proof that
  every whole number of cycles picks each candidate exactly that many times
  its weight.
- `wire`, `response`: the OpenAI-compatible chat completion response, and its
  conversions to and from the normalized form, with the proof that ingesting a
  response and rendering it back gives the same response (an empty
  `tool_calls` list coming back as the same JSON among the unknown members).
- `client`, `credentials`, `http`: which requests go out, with which key, to
  which URL, what is kept from a response, and how an answer is finished
  (`finish`: a failure from a non-2xx body, else the response rendered back
  with the caller's `model_str` as its model).
- `model`, `normalized`, `openai_error`, `types`: the per-model roster by
  `provider/model` string, the normalized chat response (messages, content
  blocks, usage, finish reasons and roles), the OpenAI error classes, and the
  protocol and API vocabulary.
- `json`, `yaml`, `text`: the parsed-document trees and the text helpers the
  rest rests on.

`app/` holds the I/O around the library: the environment, HTTP with `reqwest`,
serde's reading and writing of the wire response, the JSON boundary for
bindings, and the gateway server's rejection response.
