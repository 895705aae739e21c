# pick_up_sound_text

A desktop tool that turns the speech of a video into bilingual subtitles:
audio is cut into overlapping chunks, recognised by a speech service,
translated by an OpenAI-compatible chat service, de-duplicated across chunk
boundaries and exported as SRT or WebVTT.

## Layout

- `src/` is the library, verified with Verus. It holds the decisions and the
  data: the pipeline as a state machine (`pipeline.rs`, with the overlap
  de-duplication), the chunk planner and PCM coding (`audio.rs`), subtitle
  formatting (`subtitle.rs`), the speech service's message classifier
  (`asr.rs`), the translation conversation (`translate.rs`), object-storage
  signing and the reading of its answers (`oss.rs`), API-key encryption and
  the encrypted configuration (`keystore.rs`), the machine identifier the key
  is bound to (`machine.rs`), checkpoints, configuration and the
  user-interface commands' logic (`commands.rs`, with the reading of a task's
  progress file for the recent-task list).
  Calls into cryptographic and encoding crates go through small trusted
  wrappers whose contracts state what those crates document.
- `tests/` exercises the library on concrete values.
- `app/` is the Tauri application around it: files, processes (ffmpeg),
  network, clock, the user interface, and the loop that performs the
  pipeline's actions and feeds back their results.
