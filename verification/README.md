# pkgdeps

Tools over Debian package dependency data, with their logic verified by Verus.

- `src/` is the verified library:
  - `pkg_ids`: dense numbering of package names, and its inverse;
  - `loader`: reading a `name:` / ` - dep` listing into a dependency map;
  - `dominators`: the packages that everything depending on a package also
    depends on;
  - `names`, `dose`, `report`: digesting the YAML event stream of a
    dose-distcheck report and printing the sorted listing of dependencies;
  - `shell_ast`, `shell_scan`, `shell_parse`: parsing a maintainer script with
    conch-parser and evaluating the small subset of shell found in simple
    maintainer scripts (`set -e`, `ldconfig`, `[ a = b ]`, `if`).
- `app/` holds the three command-line front ends (`dep-tree`, `dose-parse`,
  `parse-shell`): argument handling, file and standard-input reading, the YAML
  parser, the thread pool, and printing.
- `tests/` exercises the library on concrete inputs.
