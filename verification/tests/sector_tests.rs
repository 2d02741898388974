use yoink::errors::CollectError;
use yoink::sector::{plan_read, plan_seek, power_of_two, MemSource, SectorReader, SeekFrom};

fn source(n: usize) -> MemSource {
    let mut bytes = Vec::new();
    for i in 0..n {
        bytes.push((i % 251) as u8);
    }
    MemSource::new(bytes)
}

#[test]
fn non_power_of_two_sector_size_fails_construction() {
    let r = SectorReader::new(source(16), 3);
    assert!(matches!(r, Err(CollectError::InvalidSectorSize)));
    let r = SectorReader::new(source(16), 0);
    assert!(matches!(r, Err(CollectError::InvalidSectorSize)));
    let r = SectorReader::new(source(16), 4096);
    assert!(r.is_ok());
    let r = SectorReader::new(source(16), 1);
    assert!(r.is_ok());
}

#[test]
fn seek_from_end_is_unsupported() {
    let mut reader = SectorReader::new(source(16), 4).unwrap();
    let r = reader.seek(SeekFrom::End(0));
    assert!(matches!(r, Err(CollectError::UnsupportedSeek)));
    let r = reader.seek(SeekFrom::End(-5));
    assert!(matches!(r, Err(CollectError::UnsupportedSeek)));
}

#[test]
fn seek_current_checks_bounds() {
    let mut reader = SectorReader::new(source(16), 4).unwrap();
    assert_eq!(reader.seek(SeekFrom::Start(10)).unwrap(), 10);
    assert_eq!(reader.stream_position(), 10);
    assert_eq!(reader.seek(SeekFrom::Current(-3)).unwrap(), 7);
    assert_eq!(reader.seek(SeekFrom::Current(2)).unwrap(), 9);
    let r = reader.seek(SeekFrom::Current(-100));
    assert!(matches!(r, Err(CollectError::InvalidSeek)));
    assert_eq!(reader.stream_position(), 9);
    assert_eq!(reader.seek(SeekFrom::Start(u64::MAX - 1)).unwrap(), u64::MAX - 1);
    let r = reader.seek(SeekFrom::Current(2));
    assert!(matches!(r, Err(CollectError::InvalidSeek)));
}

#[test]
fn round_trip_returns_source_bytes() {
    // A source whose length is a multiple of the sector size: a read at an
    // unaligned offset comes back byte-for-byte from the source.
    let mut reader = SectorReader::new(source(16), 4).unwrap();
    reader.seek(SeekFrom::Start(3)).unwrap();
    let mut buf = vec![0u8; 5];
    reader.read(&mut buf).unwrap();
    assert_eq!(buf, vec![3, 4, 5, 6, 7]);
    assert_eq!(reader.stream_position(), 8);

    let mut reader = SectorReader::new(source(4096 * 3), 4096).unwrap();
    reader.seek(SeekFrom::Start(4000)).unwrap();
    let mut buf = vec![0u8; 200];
    reader.read(&mut buf).unwrap();
    for (i, b) in buf.iter().enumerate() {
        assert_eq!(*b, ((4000 + i) % 251) as u8);
    }
}

#[test]
fn aligned_window_reads_only_sector_multiples() {
    // The device sees one aligned read: from position 0 (the boundary below
    // offset 3), of 8 bytes (the window [0, 8) around [3, 8)).
    let mut reader = SectorReader::new(source(16), 4).unwrap();
    reader.seek(SeekFrom::Start(3)).unwrap();
    let mut buf = vec![0u8; 5];
    reader.read(&mut buf).unwrap();
    assert_eq!(reader.inner.position % 4, 0);
    assert_eq!(reader.inner.position, 8);
}

#[test]
fn read_plans_cover_the_requested_range() {
    let plan = plan_read(3, 5, 4).unwrap();
    assert_eq!(plan.aligned_position, 0);
    assert_eq!(plan.start, 3);
    assert_eq!(plan.end, 8);
    assert_eq!(plan.aligned_length, 8);
    assert!(plan_read(3, 5, 6).is_none());

    let plan = plan_read(8192, 100, 4096).unwrap();
    assert_eq!(plan.aligned_position, 8192);
    assert_eq!(plan.aligned_length, 4096);

    let plan = plan_read(0, 4097, 4096).unwrap();
    assert_eq!(plan.aligned_length, 8192);
}

#[test]
fn seek_plans_land_on_boundaries() {
    let plan = plan_seek(SeekFrom::Start(4100), 0, 4096).unwrap();
    assert_eq!(plan.target, 4100);
    assert_eq!(plan.aligned_target, 4096);
    let plan = plan_seek(SeekFrom::Current(-50), 4100, 4096).unwrap();
    assert_eq!(plan.target, 4050);
    assert_eq!(plan.aligned_target, 0);
    assert!(matches!(plan_seek(SeekFrom::End(0), 0, 4096), Err(CollectError::UnsupportedSeek)));
    assert!(matches!(plan_seek(SeekFrom::Current(-1), 0, 4096), Err(CollectError::InvalidSeek)));
    assert!(matches!(
        plan_seek(SeekFrom::Start(0), 0, 4095),
        Err(CollectError::InvalidSectorSize)
    ));
    assert!(power_of_two(4096));
    assert!(!power_of_two(4095));
}

#[test]
fn reads_may_end_in_the_last_sector() {
    // On a source whose length is a multiple of the sector size, every read
    // within bounds succeeds, the last sector included.
    let mut reader = SectorReader::new(source(16), 4).unwrap();
    reader.seek(SeekFrom::Start(12)).unwrap();
    let mut buf = vec![0u8; 4];
    reader.read(&mut buf).unwrap();
    assert_eq!(buf, vec![12, 13, 14, 15]);
    assert_eq!(reader.stream_position(), 16);
}

#[test]
fn read_past_a_ragged_end_fails() {
    // A source whose length is no sector multiple cannot serve a window
    // past its ragged end: the read fails and the position stays.
    let mut reader = SectorReader::new(source(10), 4).unwrap();
    reader.seek(SeekFrom::Start(8)).unwrap();
    let mut buf = vec![0u8; 2];
    assert!(matches!(reader.read(&mut buf), Err(CollectError::ArchiveIoError)));
    assert_eq!(reader.stream_position(), 8);
}
