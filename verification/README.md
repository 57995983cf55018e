# klatt_rs

A Klatt-style formant speech synthesiser driven by espeak-ng's phonemiser.

- `src/` is the verified library (Verus): the phoneme inventory and the
  lookup of espeak X-SAMPA mnemonics in it (`phonemes`), the planning of
  synthesis events from espeak's phoneme-code stream, stress timing and pitch
  levels, the question-intonation decision and the choice of the events it
  raises (`frontend`), the use of espeak-ng's loaded phoneme data (`espeak`),
  the noise generator (`dsp`) and character helpers (`text`).
- `app/` is ordinary Rust around it: loading espeak-ng data from disk, and the
  floating-point signal path (formant table values, resonators, glottal
  source, synthesis and normalisation).
- `tests/` exercise the library, including against espeak-ng's bundled
  English data.
