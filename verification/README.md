# dabctl

A DAB/DAB+ receiver core whose decoding logic is verified with Verus.

- `src/` — the verified library: transmission-mode parameters, FIB/FIG
  parsing and the service database (`fib`), FIC decoding (`fic`), the
  K=7 Viterbi decoder (`viterbi`), EEP/UEP depuncturing (`protection`),
  CIF time (de)interleaving (`interleave`), the frequency interleaver and
  its permutation proof (`freq_interleaver`), energy dispersal (`prbs`),
  the block-to-frame pipeline state machine (`pipeline`), the OFDM
  synchronisation decisions (`ofdm_sync`), the lock bookkeeping of the
  cyclic-prefix symbol detector (`cp_lock`), the waits for sync,
  ensemble and services before playback or a scan summary (`receiver`),
  channel frequencies (`band`), gain selection, percentiles, buffer
  pooling, PCM encoding, metadata events and command-line settings.
- `tests/` — tests run against the compiled library.
- `app/` — the `dabctl` command: argument parsing, logging, threads, the
  PCM and metadata outputs, the IQ file source and the floating-point
  cyclic-prefix correlation of the symbol detector.

What this build does not contain: the tuner front end (librtlsdr), the
floating-point OFDM demodulation (FFT, time and frequency synchronisation
on complex samples) and the AAC decoder. Without them the command cannot
receive a multiplex and produces no audio; it stops with the status it
uses when no device can be installed.
