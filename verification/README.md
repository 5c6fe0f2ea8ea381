# arspec

Tools for Arrowhead Framework specifications, verified with Verus.

The library (`src/`) holds:

- `source`: source texts, tokens, spans and the token matcher that parsers
  read with;
- `spec`: the specification language: its lexer and grammar
  (`spec::parser`), the definitions it describes, and their consistency
  checks (`Specification::verify`);
- `project`: project configuration files, which are written and read back,
  and the search through a path's parent folders for a project's root;
- `otf`: the OpenType tables that documentation fonts are read from;
- `font`, `html`, `svg`, `text`: font metrics in design units and the text of
  documentation pages;
- `afm`: lexemes of Adobe Font Metrics files;
- `cli`, `error`: the decisions and error codes of the command line tool.

Each public function states what it returns in its contract; the grammar,
lexers and table formats are given as spec functions that the code is proved
against. `app/` holds the command line tool: file access, argument handling,
and figure layout, which works in floating point.
