# css2tw

Turns the CSS classes of HTML, JSX and template files into Tailwind CSS
utility classes. The library, `css2tw_core` (under `src/`), is written in
Verus: each public function states in its contract what it returns, and
Verus proves the code against it.

## Layout

- `src/css`: stylesheets read with lightningcss into a plain model of rules
  (`parser`), selectors (`selector`), `@media` queries (`media`), element
  style resolution against HTML parsed by scraper (`resolver`, `dom`).
- `src/tailwind`: the mapping of declarations to Tailwind classes, values,
  CSS variables, and reading a Tailwind configuration's theme.
- `src/source`: finding class uses and planning replacements in HTML, JSX
  (from opening elements read with oxc), template fragments and other files.
- `src/rewrite`: the planner, applying replacements to a text, and diffs.
- `src/converter.rs`: planning and converting a file with given stylesheets.
- `src/migration.rs`, `src/mcp.rs`: the decisions of a migration run and of
  the MCP server.
- `app/`: the programs around the library: the command line, the MCP
  server and maintenance tasks (file system, JSON, argument parsing,
  walking JavaScript syntax trees).
- `tests/`: tests of the library.

Numbers that the tool treats as decimals (rem scales, confidence scores)
are exact decimals (`number::Decimal`) in the library; the programs convert
them to and from floating point at their edges.

The calls into lightningcss, scraper, similar and std that the library
makes stand behind small trusted functions whose contracts name what they
return; each says in its comment what it claims of the outside code.
