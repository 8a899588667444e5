//! DAB/DAB+ receiver core: transmission parameters, FIC/FIB decoding,
//! convolutional decoding with puncturing, time/frequency (de)interleaving
//! and the frame bookkeeping that turns OFDM soft bits into DAB frames.

pub mod counting;
pub mod dab_params;
pub mod bits;
pub mod prot_tables;
pub mod viterbi;
pub mod protection;
pub mod ringbuffer;
pub mod interleave;
pub mod ebu_latin;
pub mod labels;
pub mod fib;
pub mod prbs;
pub mod fic;
pub mod dab_frame;
pub mod pipeline;
pub mod types;
pub mod band;
pub mod gain;
pub mod percentile;
pub mod pool;
pub mod pcm;
pub mod freq_interleaver;
pub mod sim;
pub mod receiver;
pub mod ofdm_sync;
pub mod cp_lock;
pub mod phase_table;
pub mod metadata;
pub mod cli_args;
