# novelai

A desktop tool that writes long-form web fiction with a large language model:
the user enters a title, an outline and the story world's power levels, the
model plans the chapters and then writes them one after another, streaming the
text into the editor.

The logic of the tool is a library verified with Verus:

- `src/text.rs` – character-level string functions (trimming, splitting,
  searching, replacing, decimal numbers) with their specifications.
- `src/novel.rs` – chapters and projects, word counts, plain-text export.
- `src/realms.rs` – the catalogue of power systems and the prompt sections
  built from the selected and user-defined realms.
- `src/plan.rs` – reading a chapter plan out of the model's answer.
- `src/api.rs` – the writer's commands and reports, the prompts sent for each
  command, and the reading of streamed and plain replies.
- `src/session.rs` – the generation state machine: what each report and each
  button does to the project, and the work it hands to the application.
- `src/edit.rs`, `src/wizard.rs`, `src/config.rs` – editing the project
  settings, the new-novel wizard and the API settings form.
- `src/picture.rs` – background pictures and GIF animations.
- `src/worker.rs` – the handle on the background writer thread.
- `src/laws.rs` – properties that span several functions, proved.

`app/` holds the window (egui), file dialogs and file I/O, the HTTP client and
the writer thread; it calls the library for every decision. `tests/` runs the
library on concrete values.
