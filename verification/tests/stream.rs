use daw_modules::engine::stream::{RingReader, SampleQueue};
use ringbuf::traits::{Producer, Split};
use ringbuf::HeapRb;

fn queue_with(samples: &[i32]) -> SampleQueue<i32> {
    let rb = HeapRb::<i32>::new(64);
    let (mut producer, consumer) = rb.split();
    for &s in samples {
        producer.try_push(s).unwrap();
    }
    SampleQueue::new(RingReader { consumer })
}

#[test]
fn read_takes_whole_frames_and_silences_the_rest() {
    let mut q = queue_with(&[1, 2, 3, 4, 5]);
    let mut dst = vec![9; 8];
    assert_eq!(q.read_interleaved(&mut dst, 3, 2, 0), 2);
    assert_eq!(dst, vec![1, 2, 3, 4, 0, 9, 9, 9]);
}

#[test]
fn read_stops_at_the_requested_frames() {
    let mut q = queue_with(&[1, 2, 3, 4, 5, 6, 7]);
    let mut dst = vec![0; 4];
    assert_eq!(q.read_interleaved(&mut dst, 2, 2, 0), 2);
    assert_eq!(dst, vec![1, 2, 3, 4]);
    let mut rest = vec![0; 4];
    assert_eq!(q.read_interleaved(&mut rest, 2, 2, -1), 1);
    assert_eq!(rest, vec![5, 6, -1, 0]);
}

#[test]
fn read_from_an_empty_buffer_gives_nothing() {
    let mut q = queue_with(&[]);
    let mut dst = vec![3; 2];
    assert_eq!(q.read_interleaved(&mut dst, 1, 2, 0), 0);
    assert_eq!(dst, vec![3, 3]);
}

#[test]
fn pops_come_out_eldest_first() {
    let mut q = queue_with(&[7, 8]);
    assert_eq!(q.try_pop(), Some(7));
    assert_eq!(q.try_pop(), Some(8));
    assert_eq!(q.try_pop(), None);
}

#[test]
fn partial_frame_is_consumed() {
    let mut q = queue_with(&[1, 2, 3]);
    let mut dst = vec![0; 4];
    assert_eq!(q.read_interleaved(&mut dst, 2, 2, 0), 1);
    assert_eq!(dst, vec![1, 2, 0, 0]);
    assert_eq!(q.try_pop(), None);
}
