# inference_engine_rust

The verified core of a Rust binding to the Inference Engine C API.

`src/` is the library, verified with Verus:

- `status`: the engine's status codes, their classification and the
  messages with which a failing status is reported;
- `text`: decoding of the C strings the engine returns;
- `blob`: the dimension records exchanged with the engine for blobs and
  network inputs;
- `network`: a network's name and input information;
- `layout`: row-major tensors and the height-width-channel to
  batch-channel-height-width reordering of images;
- `ranking`: the ranking of inference scores (`argmax`);
- `utils`: the helpers under their usual names.

`app/` holds the binding itself (`Core`, `Network`, `ExecutableNetwork`,
`InferRequest`): the calls into the C API through raw pointers, and the
`ndarray` and floating-point conversions around the verified functions.
