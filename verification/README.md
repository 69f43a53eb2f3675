# client_assets

A verified library for editing and converting Tibia client assets:

- `battleye`, `rsa`, `config_ini`, `client_config`: locate and patch the
  BattleEye check and the RSA modulus in a client executable, and read and
  rewrite the `[URLS]` section of `config.ini`.
- `dat_reader`, `spr_reader`: parse legacy `.dat` metadata (structures 1 to
  6, with format fallbacks) and `.spr` sprite files (run-length encoded
  32x32 sprites).
- `versions`, `converter`, `mapper`, `appearance`: the supported client
  versions, version detection from file headers, and the mapping of legacy
  things onto the appearance model.
- `sheets`: sprite-sheet layout, BMP/PNG encoding, CIP sheet headers and the
  `.aec` companion file.
- `reorganize`, `sorting`: compaction of appearance ids within a range, with
  the object references that follow the moved ids.
- `staticdata`: staticdata documents in both schemas and the merge of custom
  records.
- `lua`, `text`: Lua string escaping and integer-field rewriting, and the
  character helpers the parsers share.

`src/` is verified with Verus; `tests/` runs the library; `app/` holds the
file I/O around it.
