use nauman::capture::{
    capture_command, deliver_chunks, write_chunk, ChildStreams, Chunk, DualOutputStream,
    OutputStream, BUFFER_SIZE,
};
use nauman::output::{MultiplexedOutput, Output};

fn dual_with_writers() -> DualOutputStream {
    let mut out = MultiplexedOutput::new();
    out.add(Output::new_writer());
    let mut err = MultiplexedOutput::new();
    err.add(Output::new_writer());
    DualOutputStream::new(out, err)
}

#[test]
fn capture_delivers_both_streams_without_loss() {
    // more than two chunks of standard output, a short standard error
    let n = 2 * BUFFER_SIZE + 37;
    let stdout_data: Vec<u8> = (0..n).map(|i| (i % 251) as u8).collect();
    let stderr_data: Vec<u8> = b"warning: something\n".to_vec();
    let child = ChildStreams { stdout: stdout_data.clone(), stderr: stderr_data.clone() };
    let mut dual = dual_with_writers();
    assert!(capture_command(&child, &mut dual).is_ok());
    assert_eq!(dual.out.sink_buffered(0).unwrap(), &stdout_data);
    assert_eq!(dual.err.sink_buffered(0).unwrap(), &stderr_data);
}

#[test]
fn capture_of_empty_streams_delivers_nothing() {
    let child = ChildStreams { stdout: Vec::new(), stderr: Vec::new() };
    let mut dual = dual_with_writers();
    assert!(capture_command(&child, &mut dual).is_ok());
    assert!(dual.out.sink_buffered(0).unwrap().is_empty());
    assert!(dual.err.sink_buffered(0).unwrap().is_empty());
}

#[test]
fn chunks_go_to_the_sinks_of_their_own_stream() {
    let mut dual = dual_with_writers();
    let c1 = Chunk { stream: OutputStream::Stdout, data: b"out".to_vec() };
    let c2 = Chunk { stream: OutputStream::Stderr, data: b"err".to_vec() };
    assert!(write_chunk(&c1, &mut dual).is_ok());
    assert!(write_chunk(&c2, &mut dual).is_ok());
    assert_eq!(dual.out.sink_buffered(0).unwrap().as_slice(), b"out");
    assert_eq!(dual.err.sink_buffered(0).unwrap().as_slice(), b"err");
}

#[test]
fn interleaved_delivery_keeps_per_stream_order() {
    // an arbitrary interleaving of two chunked streams
    let chunks = vec![
        Chunk { stream: OutputStream::Stdout, data: b"he".to_vec() },
        Chunk { stream: OutputStream::Stderr, data: b"WAR".to_vec() },
        Chunk { stream: OutputStream::Stdout, data: b"llo".to_vec() },
        Chunk { stream: OutputStream::Stderr, data: b"N".to_vec() },
        Chunk { stream: OutputStream::Stdout, data: b"!".to_vec() },
    ];
    let mut dual = dual_with_writers();
    assert!(deliver_chunks(&chunks, &mut dual).is_ok());
    assert_eq!(dual.out.sink_buffered(0).unwrap().as_slice(), b"hello!");
    assert_eq!(dual.err.sink_buffered(0).unwrap().as_slice(), b"WARN");
}

#[test]
fn capture_fans_out_to_every_registered_sink() {
    let mut out = MultiplexedOutput::new();
    out.add(Output::new_writer());
    out.add(Output::new_null());
    out.add(Output::new_writer());
    let err = MultiplexedOutput::new();
    let mut dual = DualOutputStream::new(out, err);
    let child = ChildStreams { stdout: b"abc".to_vec(), stderr: Vec::new() };
    assert!(capture_command(&child, &mut dual).is_ok());
    assert_eq!(dual.out.sink_buffered(0).unwrap().as_slice(), b"abc");
    assert_eq!(dual.out.sink_buffered(2).unwrap().as_slice(), b"abc");
}
