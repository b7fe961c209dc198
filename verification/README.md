# craby

Craby generates the Rust and C++ bindings of React Native TurboModules from TypeScript
specifications, and builds the Rust crate for Android and iOS.

The library under `src/` is verified with Verus: each public function states in its contract
what it returns, over mathematical models of its inputs.

- `analyzer`, `ts`, `parser`, `idmap`: reading module schemas out of a specification file
  (its declarations, imports and registry calls, after name resolution); `registry` finds the
  modules a file registers and checks the shape of its specification interfaces.
- `schema`, `rust_gen`, `cxx_gen`, `bridging`, `deps`, `generator`, `platform_gen`: the code
  generated for a module schema (spec trait, implementation skeleton, cxx bridge, C++
  TurboModule, JSI bridging templates in dependency order, Android and iOS glue).
- `text`, `case`, `keyed`, `naming`: text helpers, name conversions, texts kept by key.
- `toolchain`, `ndk`, `setup`, `artifacts`: build targets, NDK paths, setup steps, artifact
  names.
- `cli`, `project`, `catalog`: answer validation, generated file banners, the schema hash of
  `generated.rs`, project templates, `.gitignore` entries, module order.
- `package_json`: the `codegenConfig` check of `doctor` and the workspace entries that `init`
  adds to `package.json` (read and printed by serde_json).

`app/` holds the command side (file system, processes, network, prompts, and the `oxc` parse
that feeds the analysis). `tests/` exercises the library on concrete inputs.
