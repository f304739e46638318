# stiv

The core of a terminal image viewer for terminals that speak the kitty
graphics protocol, written in Verus and verified.

- `src/` is the verified library: the gallery's state machine (`app`), the
  gallery grid (`ui`), image geometry, cropping and resizing (`stiv_image`),
  the protocol's commands (`protocol`, `renderer`), the placeholder cells'
  text (`diacritics`), the environment checks (`detect_support`) and text
  helpers (`text`). Calls into `base64`, `imagesize`, `image`,
  `fast_image_resize`, `ratatui`'s layout and `std::path` stand behind a few
  trusted wrappers whose contracts are documented in place.
- `app/` is the program around it: terminal I/O, reading files and
  directories (the library parses and decodes what it read), the float zoom factor, shared memory and ratatui drawing.
- `tests/` exercises the library on concrete values.
