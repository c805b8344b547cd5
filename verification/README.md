# anvil

The verified core of Anvil, a parametric CAD/CAM tool: the parts of the
program that decide and compute on plain values, each with a contract that
Verus proves.

`src/` is the library:

* `text`: the string helpers the rest is written with (trimming, ASCII
  case, decimal numbers, the float number grammar).
* `expr`: the expression language (`h = w / 2 + 5`): parser, expression
  table and the dependency order it is computed in, with cycles and
  unknown names reported.
* `param`, `features`: the built-in features as plain data: defaults,
  names, parameters, setting a parameter, and following a renumbering of
  the history; the integer part of the hot spot model (filling the voxel
  grid from the pour, unreached regions).
* `document`: the history's bookkeeping: renumbering references on insert,
  remove and move, moving what is kept per feature along with it, the
  rollback bar, undo and redo.
* `timeline`: the history itself over plain feature data: adding, removing
  and moving a feature with every reference renumbered, refusing a move
  that would put a feature before one it uses, and the rollback bar; and
  the document around it, where each edit that changes the history is one
  undo step and colours and materials follow their features.
* `plane_ref`: references to a plane (a datum, a plane feature, a face),
  their old text form and how they follow the history.
* `region_select`: the text that stores which sketch regions a feature uses.
* `svg`: path data as text, its commands and the numbers after each.
* `zip`, `xml`, `threemf`, `step`: reading zip packages, the tags of XML,
  the model part of a 3MF package, and the entity table of STEP files.
* `fonts`, `post`, `cli`: the font catalogue, the post-processor dialects,
  and the command-line options and export formats.
* `laws`: properties that span several calls.

`app/` is the command-line program around the library: files, the
installed fonts, and the floating point arithmetic (expression values,
G-code coordinates). Building solids needs the modelling kernel, which is
not part of this crate.

`tests/` runs the library on concrete values.
