use airnc::transfer::{response_head, Transfer, TransferStep, CHUNK_SIZE};

/// Runs the loop with reads that always fill the request; returns the bytes
/// delivered, the number of chunks and the total progress advance.
fn run_full_reads(file_size: u64) -> (u64, u64, u64) {
    let mut t = Transfer::start(file_size);
    let mut chunks = 0;
    let mut progress = 0;
    loop {
        match t.next_step() {
            TransferStep::Read { len } => {
                assert_eq!(len as u64, CHUNK_SIZE);
                progress += t.record_chunk(len);
                chunks += 1;
            }
            TransferStep::Finish => break,
        }
    }
    (t.delivered(), chunks, progress)
}

#[test]
fn small_files_send_nothing() {
    assert_eq!(run_full_reads(0), (0, 0, 0));
    assert_eq!(run_full_reads(100), (0, 0, 0));
    assert_eq!(run_full_reads(8192), (0, 0, 0));
}

#[test]
fn larger_files_lose_the_last_chunk() {
    assert_eq!(run_full_reads(8193), (8192, 1, 8192));
    assert_eq!(run_full_reads(16384), (8192, 1, 8192));
    assert_eq!(run_full_reads(16385), (16384, 2, 16384));
    let (delivered, _, _) = run_full_reads(20000);
    assert!(20000 - CHUNK_SIZE <= delivered && delivered < 20000);
}

#[test]
fn short_reads_are_counted() {
    let mut t = Transfer::start(10000);
    assert_eq!(t.counter(), 8192);
    assert_eq!(t.next_step(), TransferStep::Read { len: 8192 });
    assert_eq!(t.record_chunk(1000), 8192);
    assert_eq!(t.counter(), 9192);
    assert_eq!(t.delivered(), 1000);
    assert_eq!(t.next_step(), TransferStep::Read { len: 8192 });
    t.record_chunk(808);
    assert_eq!(t.counter(), 10000);
    assert_eq!(t.next_step(), TransferStep::Finish);
    assert_eq!(t.delivered(), 1808);
    assert_eq!(t.file_size(), 10000);
}

#[test]
fn response_head_announces_the_file() {
    let h = response_head(123456);
    assert_eq!(h.content_type, "application/octet-stream");
    assert_eq!(h.content_length, 123456);
}

#[test]
fn full_reads_take_size_less_one_over_chunk() {
    for size in [8193u64, 10000, 16384, 16385, 100000, 1 << 20] {
        let (_, chunks, _) = run_full_reads(size);
        assert_eq!(chunks, (size - 1) / CHUNK_SIZE, "size {}", size);
    }
}
