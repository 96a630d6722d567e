# ellipsoid

Flat patterns for a general ellipsoid: the panels a helmet or a dome can be cut
from, as an SVG drawing, and the ellipsoid and its flattened panels as OBJ
meshes.

The crate has two parts.

- `src/` is a library verified with Verus. It holds everything about the
  pattern that is exact rather than floating point: the order in which the cut
  outline visits the panels' edges (`outline`), the SVG document and its text
  (`document`, `svg`, `scene`), the OBJ face records and reading them back
  (`obj`, `obj_read`, `obj_laws`), the preview meshes' triangle indices
  (`mesh`), the units, projections and validation messages of the settings
  (`units`, `settings`), when settings are written back between sessions
  (`persistence`), and what is reported about saving and opening files
  (`platform`, `views`), and what each pointer gesture on the preview does to
  the cutouts being edited or drawn (`editing`). Each public function states its result exactly in its
  contract, and the `law_*` proof functions state what holds across calls.
- `app/` is the command-line program around it: flags and settings files, and
  the floating-point geometry that tessellates the ellipsoid, unrolls it into
  panels, cuts holes and lays the drawing out.
