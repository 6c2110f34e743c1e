# baton

A compiler for `.ba`, a small C-like language, to ARM64 assembly for Apple
platforms, written in Verus. Every stage is an executable function whose result
is stated, in its `ensures`, as a specification function over mathematical
values, and proved.

## Layout

- `src/scanner.rs`: source bytes to tokens with line and column; `scan` is the
  specification. `law_scan_shape`: a successful scan ends with one `EoF` token,
  positions start at 1 and lines never decrease. `law_trailing_comment`: a
  trailing `//` comment adds no token.
- `src/parser.rs`, `src/ast.rs`: recursive-descent parser over the tokens; the
  grammar is written as specification functions from a position to a result and
  the position reached (`program_spec`). Laws: a successful parse reads every
  token (`law_program_reads_to_end`); every position a failure reports is that of
  a token (`law_failure_at_token`).
- `src/semantic_analyzer.rs`: scopes, symbol tables and type checking
  (`analyze_spec`). `law_analysis_scoping`: only the innermost scope changes, and
  nothing declared in a block is visible after it. `law_analysis_in_parts`:
  analysing a program in consecutive parts agrees with analysing it whole.
- `src/code_generator.rs`: assembly text for a tree (`gen_spec`).
  `law_generation_appends`: generation only appends to the text and the label
  counter never goes back; `law_one_label_per_construct` and
  `law_labels_taken_once`: the label numbers taken are consecutive, one per
  label-taking construct, so no label is defined twice; `law_slots_disjoint`: stack
  slots of local variables never overlap.
- `src/diagnostic.rs`: the error report with the source line and a caret.
- `src/literal.rs`: integer and float literal syntax; `law_int_text_round_trip`.
- `src/assoc.rs`: association lists read as maps, used for symbol tables.
- `src/text.rs`, `src/render.rs`: decimal text, `{:?}`-style rendering of tokens,
  types and trees, and the few standard-library text operations used.
- `src/basic/`: the basic dialect (tokens without positions, integer code
  generation), with the same stages and laws.
- `app/main.rs`: the command line tool: reads the file, runs the stages, prints
  reports, and calls the system C compiler on the assembly.
