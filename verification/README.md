# quizz_training

A terminal quiz trainer. Quizzes are YAML files in a `quizz/` directory:

```yaml
metadata:
  name: "Quizz name"
questions:
  - title: "What is the capital of France?"
    options: [Strasbourg, Metz, "Paris*", Marseille]
```

A trailing `*` marks a correct answer; every question needs at least one.

## Layout

- `src/` — the library, with its contracts and proofs:
  - `quiz/validator.rs`: raw YAML quiz to validated quiz, with the first
    broken rule as the error;
  - `quiz/loader.rs`: which files count, and how the outcomes of all files
    combine (first error, or the quizzes stably sorted by name);
  - `app/`: the screens and what each action does on them (`AppView::step`
    states it), and training sessions drawn at random with `rand`;
  - `input.rs`: keys to actions; `text.rs`, `number.rs`: trimming, the `*`
    marker, and the count field's numbers;
  - `laws.rs`: properties of the whole (the state invariant every action
    keeps, how answers are judged, round trips of navigation, ...).
- `app/` — the binary: terminal setup and drawing (`crossterm`, `ratatui`),
  reading the quiz files (`serde_yaml`), error messages (`thiserror`).
- `tests/` — tests of the library.
