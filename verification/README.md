# token_maker

A tool that turns images into tokens and portraits for tabletop games: a
source image is placed, framed and masked, then exported under a name built
from the project's naming conventions.

`src/` is the verified library (Verus): stored settings and their keys,
naming conventions and file-name sanitising, the string and number
routines they rest on, image compositing and the flood-filled frame masks,
the state and decisions of both file browsers, the frame editor, the export
settings of a workspace and the application's screen-and-message logic.

`app/` is the iced program around it: drawing, reading and writing files,
downloading, the floating-point image work (resampling, tinting, colour
conversion) and the custom widgets.

`tests/` exercises the library on concrete values.
