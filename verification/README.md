# rime_install

Installs Rime input-method configuration packages ("plum" packages) from
GitHub into the Rime user directory.

- `src/` is the verified library (Verus):
  - `text.rs`: character-sequence primitives (whitespace, search, split, trim).
  - `target.rs`: target strings (`user/repo@branch:recipe:key=val`,
    `:preset`, package-list locations) and GitHub paths and URLs.
  - `conf.rs`: the `package_list=(...)` of a `packages.conf`.
  - `recipe.rs`: recipes, default file selection, glob patterns, copy decisions.
  - `install.rs`: what a target resolves to, package lists, recipe choice.
  - `fetch.rs`: clone or update plan of a package.
  - `frontend.rs`: where the Rime frontends keep their user directory.
- `app/` is the command-line program: argument parsing, file system, HTTP and
  git work around the library's decisions.
- `tests/` runs the library on concrete inputs.
