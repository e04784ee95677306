# glaeda

Verified decisions for a small fleet of self-hosted runners on personal
machines: which local binary generation is installed, how an interrupted
installation is recovered, where its launcher may stand, whether a self-build is
ready and what it produced, how available a Mac is, and what an operator
configured.

- `src/` is the library. Every function states in its contract what it answers,
  over the views of its types, and Verus proves it. Each module ends with the
  laws that relate its functions.
- `app/` is the program around it: the command line, and the modules that read
  the filesystem, run commands and make the changes that the library names.
- `tests/` runs the library on concrete values.

The store and the launcher are step by step machines. `app/` observes, the
library names one change or refuses, `app/` makes that change and observes
again.

Documents that the library wrote are read back by the library itself, from their
bytes. Any other spelling is what the caller's strict JSON reader made of it.
