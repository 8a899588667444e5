use dabctl::interleave::{interleave_delay, CifInterleaver, TimeDeInterleaver};
use dabctl::ringbuffer::RingBuffer;

#[test]
fn cif_output_reads_payload_pushed_delay_ago() {
    let mut ci = CifInterleaver::new();
    let payloads: Vec<Vec<u8>> = (0..40u8).map(|k| (0..32u8).map(|i| k.wrapping_mul(7) ^ i).collect()).collect();
    for (k, payload) in payloads.iter().enumerate() {
        let out = ci.push_and_interleave(payload);
        if k < 15 {
            assert!(out.is_none());
            continue;
        }
        let out = out.unwrap();
        for (i, byte) in out.iter().enumerate() {
            let d = interleave_delay(i % 16);
            assert_eq!(*byte, payloads[k - d][i]);
        }
    }
}

#[test]
fn deinterleaver_reads_cif_pushed_offset_ago_or_zero() {
    let n = 48usize;
    let mut d = TimeDeInterleaver::new(n);
    let cifs: Vec<Vec<i16>> = (0..30i16).map(|t| (0..n as i16).map(|i| 100 * (t + 1) + i).collect()).collect();
    let mut out = vec![0i16; n + 2];
    for (t, cif) in cifs.iter().enumerate() {
        let ready = d.push_cif(cif, &mut out);
        assert_eq!(ready, t >= 15);
        for i in 0..n {
            let back = (16 - interleave_delay(i % 16)) % 16;
            let expected = if back <= t { cifs[t - back][i] } else { 0 };
            assert_eq!(out[i], expected);
        }
        assert_eq!(out[n], 0);
    }
}

#[test]
fn ring_buffer_space_always_sums_to_capacity() {
    let mut rb: RingBuffer<u8> = RingBuffer::new(10);
    let mut out = [0u8; 4];
    for step in 0..20u8 {
        if step % 3 == 2 {
            rb.get_data(&mut out);
        } else {
            rb.put_data(&[step; 3]);
        }
        assert!(rb.available_read() <= 10);
        assert_eq!(rb.available_read() + rb.available_write(), 10);
    }
    rb.flush();
    assert_eq!((rb.available_read(), rb.available_write()), (0, 10));
}
