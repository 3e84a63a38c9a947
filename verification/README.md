# khviz

A MilkDrop-style music visualizer for WebGL2, compiled to WebAssembly.

- `src/` is the verified core (Verus):
  - `eel::lexer` and `eel::parser`: the EEL expression language, tokenized
    and parsed exactly as the grammar functions `lex` and `p_program` state;
    number tokens keep their source text.
  - `eel::eval`: register (`reg00`..`reg99`) and builtin name resolution,
    builtin arities, the `loop` cap, buffer bounds and the integer part of
    `rand`.
  - `preset`: extraction of a preset shader's `shader_body { ... }`.
  - `renderer`: fragment-shader assembly, the warp mesh index buffer, the
    motion-vector sampling grid and the custom wave and shape counts.
  - `textures`: random RGBA noise.
- `app/` holds the rest: the wasm-bindgen interface, serde preset types, audio
  analysis and EEL evaluation in floating point, and the WebGL passes.
