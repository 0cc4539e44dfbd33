# ainuKey

An input method (a Text Services Framework text input processor) for typing
the Ainu language on Windows: romaji is normalized, converted to Ainu
katakana, and committed into the document, with an optional candidate list.

## Layout

- `src/` — the library `ainukey`, verified with Verus: romaji normalization
  (`romaji`), romaji → katakana conversion with notation options (`kana`,
  calling `ainconv` for canonical Ainu runs), the configuration model and its
  self-documenting TOML (`config`), the completion table and candidate list
  (`suggest`, `candidates`), the next-word model's file layout
  (`model_file`), key decoding (`keys`), the composition state machine
  (`composition`), and the models behind the language-bar button, the display
  attribute, the class factory, the registry entries, the candidate popup and
  the settings dialog.
- `app/` — the DLL around the library: COM objects, window procedures,
  registry and file access, serde/TOML reading of the configuration, and the
  floating-point LSTM. It needs Windows to build.
- `tests/` — tests of the library.
