# open_course

The logic of a terminal language-learning tutor, verified with Verus: the
curriculum and its topics, the prompts sent to the language model and the
parsing of its answers, exercise scoring, vocabulary tracking, learning
items, situational modules, the learner's profile and language pairs, the
sync protocol's decisions, and the state of the terminal screens.

Layout:

- `src/` — the verified library. Every public function states its result in
  `ensures`, over spec functions of its own module; the `lemma_*` proof
  functions state the laws that relate several calls.
- `tests/` — tests of the library on concrete values.
- `app/` — the program around it: command line, configuration file and data
  directory, JSON (de)serialisation, the release check over the network, and
  the floating-point score arithmetic.
