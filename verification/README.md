# xtal

Xtal turns a folder of measurements, plots and LaTeX sections into a report.
This crate is its core, written in Verus: every function of `src/` carries a
contract, and Verus proves that its body meets it.

- `src/` — the library. The report's sections and plan (`secciones`, `plan`,
  `store`), the references and inventory of a project (`refs`, `inventory`),
  configuration (`config`, `rutas`), the dependencies and their installers
  (`deps`, `doctor`, `proceso`), the AI agents and the MCP server (`agents`,
  `mcp`, `tools`, `esquemas`), updates (`update`), the desktop app's door, tree, git state,
  SyncTeX map and command line (`ordenes`, `arbol`, `git`, `synctex`,
  `xtal_cli`), and the text and number helpers they share (`texto`, `orden`,
  `numeros`). Laws that relate several functions are public proof functions
  next to them.
- `app/` — the `xtal` program around the library: arguments, files, other
  programs, printing.
- `tests/` — tests of the library on concrete values.
