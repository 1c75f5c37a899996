# prism

The logic of Prism, a game-clipping desktop application, as a Verus-verified
library: the shadow frame buffer and audio buffer, H.264 stream framing
(AVCC / Annex B, SPS/PPS), colour conversion and frame scaling, clip
preparation and MP4 mux
plans, thumbnails and previews, the recorder's session state, the upload
queue and processor, settings, sign-in helpers, game detection and
automatic clips.

- `src/` — the verified library. Contracts are stated over views and spec
  functions; laws that relate several operations are public proof
  functions (for example `lemma_push_keeps_longest_fitting_suffix`,
  `lemma_annex_b_round_trip`, `lemma_generated_parameter_sets`,
  `lemma_newest_first_sorts`).
- `tests/` — tests run against the compiled library.
- `app/` — the shell around it: files (settings, upload queue, clip side
  files), MP4 writing, the capture loop, HTTP uploads and sign-in through a
  transport supplied by the host, and CS2 game-state reports.
