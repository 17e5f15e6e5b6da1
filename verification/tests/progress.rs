use vsnap::progress::{
    apply_progress, handle_progress, last_record_among, split_lines, BarUpdate, Progress,
    ProgressConsumer, ProgressReporter,
};
use vsnap::wire::{decode_progress, encode_progress, encode_progress_line};

#[test]
fn a_new_reporter_has_counted_nothing() {
    let reporter = ProgressReporter::new(100);
    assert_eq!(reporter.record(), Progress { progress: 0, total: 100 });
}

#[test]
fn the_count_grows_by_each_chunk_and_stops_at_the_total() {
    let mut reporter = ProgressReporter::new(100);
    assert_eq!(reporter.advance(30), Progress { progress: 30, total: 100 });
    assert_eq!(reporter.advance(0), Progress { progress: 30, total: 100 });
    assert_eq!(reporter.advance(69), Progress { progress: 99, total: 100 });
    assert_eq!(reporter.advance(1), Progress { progress: 100, total: 100 });
    assert_eq!(reporter.advance(50), Progress { progress: 100, total: 100 });
    assert_eq!(reporter.record(), Progress { progress: 100, total: 100 });
}

#[test]
fn huge_chunks_do_not_overflow() {
    let mut reporter = ProgressReporter::new(u64::MAX);
    assert_eq!(reporter.advance(u64::MAX - 1).progress, u64::MAX - 1);
    assert_eq!(reporter.advance(u64::MAX).progress, u64::MAX);
    let mut small = ProgressReporter::new(5);
    assert_eq!(small.advance(u64::MAX).progress, 5);
}

#[test]
fn an_empty_total_is_complete_at_the_first_chunk() {
    let mut reporter = ProgressReporter::new(0);
    assert_eq!(reporter.advance(512), Progress { progress: 0, total: 0 });
}

#[test]
fn listening_gives_one_record_for_each_chunk() {
    let emitted = ProgressReporter::new(10).listen(&vec![3, 0, 4, 9, 1]);
    assert_eq!(
        emitted,
        vec![
            Progress { progress: 3, total: 10 },
            Progress { progress: 3, total: 10 },
            Progress { progress: 7, total: 10 },
            Progress { progress: 10, total: 10 },
            Progress { progress: 10, total: 10 },
        ]
    );
    assert!(ProgressReporter::new(10).listen(&Vec::new()).is_empty());
}

#[test]
fn records_never_go_back_and_end_at_the_total() {
    let chunks: Vec<u64> = (0..200u64).map(|i| (i * 7919) % 512).collect();
    let sum: u64 = chunks.iter().sum();
    for total in [0, 1, sum / 2, sum - 1, sum, sum + 1, u64::MAX] {
        let emitted = ProgressReporter::new(total).listen(&chunks);
        assert_eq!(emitted.len(), chunks.len());
        let mut before = 0;
        for record in &emitted {
            assert_eq!(record.total, total);
            assert!(record.progress <= record.total);
            assert!(record.progress >= before);
            before = record.progress;
        }
        assert_eq!(emitted.last().unwrap().progress, sum.min(total));
    }
}

#[test]
fn listening_goes_on_from_where_the_reporter_is() {
    let mut reporter = ProgressReporter::new(10);
    reporter.advance(4);
    assert_eq!(
        reporter.listen(&vec![5, 5]),
        vec![Progress { progress: 9, total: 10 }, Progress { progress: 10, total: 10 }]
    );
}

#[test]
fn a_record_is_written_as_one_json_object() {
    assert_eq!(
        encode_progress(Progress { progress: 5, total: 10 }),
        b"{\"progress\":5,\"total\":10}".to_vec()
    );
    assert_eq!(
        encode_progress(Progress { progress: 0, total: 0 }),
        b"{\"progress\":0,\"total\":0}".to_vec()
    );
    assert_eq!(
        encode_progress(Progress { progress: u64::MAX, total: u64::MAX }),
        b"{\"progress\":18446744073709551615,\"total\":18446744073709551615}".to_vec()
    );
}

#[test]
fn a_line_ends_with_a_line_feed() {
    assert_eq!(
        encode_progress_line(Progress { progress: 1234567890, total: 9876543210 }),
        b"{\"progress\":1234567890,\"total\":9876543210}\n".to_vec()
    );
}

#[test]
fn a_record_is_what_serde_json_writes() {
    for (progress, total) in [(0u64, 0u64), (7, 9), (1 << 40, u64::MAX), (1000, 999)] {
        let mut object = serde_json::Map::new();
        object.insert("progress".to_string(), serde_json::Value::from(progress));
        object.insert("total".to_string(), serde_json::Value::from(total));
        let expected = serde_json::to_vec(&serde_json::Value::Object(object)).unwrap();
        assert_eq!(encode_progress(Progress { progress, total }), expected);
        let line = encode_progress_line(Progress { progress, total });
        let parsed: serde_json::Value = serde_json::from_slice(&line).unwrap();
        assert_eq!(parsed.get("progress").and_then(|v| v.as_u64()), Some(progress));
        assert_eq!(parsed.get("total").and_then(|v| v.as_u64()), Some(total));
    }
}

#[test]
fn a_line_is_read_back() {
    for p in [
        Progress { progress: 0, total: 0 },
        Progress { progress: 5, total: 10 },
        Progress { progress: 10, total: 10 },
        Progress { progress: 11, total: 10 },
        Progress { progress: u64::MAX, total: u64::MAX },
        Progress { progress: 100, total: 1000000000000 },
    ] {
        assert_eq!(decode_progress(&encode_progress_line(p)), Some(p));
        assert_eq!(decode_progress(&encode_progress(p)), Some(p));
    }
}

#[test]
fn white_space_between_the_tokens_is_passed_over() {
    let p = Some(Progress { progress: 5, total: 10 });
    for spelled in [
        &b"{\"progress\":5,\"total\":10}\r\n"[..],
        b" \t{\"progress\":5,\"total\":10} \n\n",
        b"{\"progress\": 5, \"total\": 10}",
        b"{ \"progress\" : 5 , \"total\" : 10 }",
        b"{\n  \"progress\": 5,\n  \"total\": 10\n}\n",
        b"\t{\t\"progress\"\t:\t5\t,\t\"total\"\t:\t10\t}\t",
    ] {
        assert_eq!(decode_progress(spelled), p, "{:?}", String::from_utf8_lossy(spelled));
        let parsed: serde_json::Value = serde_json::from_slice(spelled).unwrap();
        assert_eq!(parsed.get("progress").and_then(|v| v.as_u64()), Some(5));
        assert_eq!(parsed.get("total").and_then(|v| v.as_u64()), Some(10));
    }
}

#[test]
fn the_members_may_come_in_either_order() {
    assert_eq!(
        decode_progress(b"{\"total\":10,\"progress\":5}"),
        Some(Progress { progress: 5, total: 10 })
    );
    assert_eq!(
        decode_progress(b"{ \"total\": 7, \"progress\": 7 }\n"),
        Some(Progress { progress: 7, total: 7 })
    );
    assert_eq!(
        decode_progress(b"{\"total\":0,\"progress\":18446744073709551615}"),
        Some(Progress { progress: u64::MAX, total: 0 })
    );
}

#[test]
fn what_is_no_record_is_not_read() {
    let lines: Vec<&[u8]> = vec![
        b"",
        b"\n",
        b"   ",
        b"hello",
        b"{}",
        b"{\"progress\":5}",
        b"{\"total\":10}",
        b"{\"progress\":5,\"total\":}",
        b"{\"progress\":,\"total\":10}",
        b"{\"progress\":5,\"total\":10",
        b"\"progress\":5,\"total\":10}",
        b"{\"progress\":5,\"total\":10}}",
        b"{\"progress\":5,\"total\":10}x",
        b"x{\"progress\":5,\"total\":10}",
        b"{\"progress\":1 5,\"total\":10}",
        b"{\"pro gress\":5,\"total\":10}",
        b"{\"progress\":5,\"progress\":10}",
        b"{\"total\":5,\"total\":10}",
        b"{\"progress\":5\"total\":10}",
        b"{\"progress\":05,\"total\":10}",
        b"{\"progress\":5,\"total\":010}",
        b"{\"progress\":-5,\"total\":10}",
        b"{\"progress\":+5,\"total\":10}",
        b"{\"progress\":5.0,\"total\":10}",
        b"{\"progress\":5e0,\"total\":10}",
        b"{\"progress\":\"5\",\"total\":10}",
        b"{\"progress\":18446744073709551616,\"total\":10}",
        b"{\"progress\":5,\"total\":18446744073709551616}",
        b"{\"progress\":5,\"total\":99999999999999999999999999999999}",
        b"{\"progress\":5,\"total\":10,\"extra\":1}",
        b"{\"Progress\":5,\"total\":10}",
        b"{\"progress\":5;\"total\":10}",
        b"[5,10]",
        b"{\"progress\":5,\"total\":10}\n{\"progress\":6,\"total\":10}",
        b"{\"progress\":5,\"total\":10}\x00",
        b"{\"progress\":5,\"total\":10}\xff",
        b"\xef\xbb\xbf{\"progress\":5,\"total\":10}",
        b"Archiving /mnt/source",
    ];
    for line in lines {
        assert_eq!(decode_progress(line), None, "{:?}", String::from_utf8_lossy(line));
    }
}

#[test]
fn a_record_moves_the_indicator() {
    assert_eq!(
        apply_progress(Some(0), Some(Progress { progress: 5, total: 10 })),
        BarUpdate { length: Some(10), position: Some(5), finish: false }
    );
    assert_eq!(
        apply_progress(Some(10), Some(Progress { progress: 6, total: 10 })),
        BarUpdate { length: None, position: Some(6), finish: false }
    );
    assert_eq!(
        apply_progress(None, Some(Progress { progress: 6, total: 10 })),
        BarUpdate { length: None, position: Some(6), finish: false }
    );
    assert_eq!(
        apply_progress(Some(10), Some(Progress { progress: 10, total: 10 })),
        BarUpdate { length: None, position: Some(10), finish: true }
    );
    assert_eq!(
        apply_progress(Some(7), Some(Progress { progress: 0, total: 0 })),
        BarUpdate { length: Some(0), position: Some(0), finish: true }
    );
    assert_eq!(
        apply_progress(Some(10), None),
        BarUpdate { length: None, position: None, finish: false }
    );
}

#[test]
fn a_message_is_read_line_by_line() {
    assert_eq!(
        handle_progress(b"{\"progress\":5,\"total\":10}\n", Some(0)),
        BarUpdate { length: Some(10), position: Some(5), finish: false }
    );
    assert_eq!(
        handle_progress(b"{\"progress\":1,\"total\":10}\n{\"progress\":2,\"total\":10}\n", Some(0)),
        BarUpdate { length: Some(10), position: Some(2), finish: false }
    );
    assert_eq!(
        handle_progress(b"{\"progress\":1,\"total\":10}\nnoise\n{\"progress\":10,\"total\":10}", Some(10)),
        BarUpdate { length: None, position: Some(10), finish: true }
    );
    assert_eq!(
        handle_progress(b"{\"progress\":3,\"total\":10}\nnoise\n\n", Some(10)),
        BarUpdate { length: None, position: Some(3), finish: false }
    );
    assert_eq!(
        handle_progress(b"not json\n", Some(10)),
        BarUpdate { length: None, position: None, finish: false }
    );
    assert_eq!(
        handle_progress(b"", Some(10)),
        BarUpdate { length: None, position: None, finish: false }
    );
}

#[test]
fn lines_are_parted_at_line_feeds() {
    assert_eq!(split_lines(b""), (Vec::<Vec<u8>>::new(), Vec::new()));
    assert_eq!(split_lines(b"abc"), (Vec::<Vec<u8>>::new(), b"abc".to_vec()));
    assert_eq!(split_lines(b"abc\n"), (vec![b"abc".to_vec()], Vec::new()));
    assert_eq!(split_lines(b"\n"), (vec![Vec::new()], Vec::new()));
    assert_eq!(
        split_lines(b"a\n\nbc\r\nd"),
        (vec![b"a".to_vec(), Vec::new(), b"bc\r".to_vec()], b"d".to_vec())
    );
    assert_eq!(
        last_record_among(&vec![
            b"{\"progress\":1,\"total\":3}".to_vec(),
            b"x".to_vec(),
            b"{\"progress\":2,\"total\":3}\r".to_vec(),
            b"".to_vec(),
        ]),
        Some(Progress { progress: 2, total: 3 })
    );
    assert_eq!(last_record_among(&vec![b"x".to_vec()]), None);
    assert_eq!(last_record_among(&Vec::new()), None);
}

#[test]
fn two_lines_in_one_frame_are_both_read() {
    let mut consumer = ProgressConsumer::new();
    let update = consumer.consume(
        b"{\"progress\":1,\"total\":10}\n{\"progress\":2,\"total\":10}\n",
        Some(0),
    );
    assert_eq!(update, BarUpdate { length: Some(10), position: Some(2), finish: false });
    assert_eq!(consumer.last, Some(Progress { progress: 2, total: 10 }));
    assert!(consumer.pending.is_empty());
}

#[test]
fn a_line_cut_in_two_is_read_when_it_is_whole() {
    let mut consumer = ProgressConsumer::new();
    let update = consumer.consume(b"{\"progress\":4,\"to", Some(0));
    assert_eq!(update, BarUpdate { length: None, position: None, finish: false });
    assert_eq!(consumer.last, None);
    assert_eq!(consumer.pending, b"{\"progress\":4,\"to");
    let update = consumer.consume(b"tal\":10}\n{\"progress\":5,", Some(0));
    assert_eq!(update, BarUpdate { length: Some(10), position: Some(4), finish: false });
    assert_eq!(consumer.last, Some(Progress { progress: 4, total: 10 }));
    assert_eq!(consumer.pending, b"{\"progress\":5,");
    let update = consumer.consume(b"\"total\":10}", Some(10));
    assert_eq!(update, BarUpdate { length: None, position: None, finish: false });
    let update = consumer.consume(b"\n", Some(10));
    assert_eq!(update, BarUpdate { length: None, position: Some(5), finish: false });
    assert_eq!(consumer.last, Some(Progress { progress: 5, total: 10 }));
    assert!(consumer.pending.is_empty());
}

#[test]
fn the_consumer_remembers_the_last_record() {
    let mut consumer = ProgressConsumer::new();
    assert_eq!(consumer.last, None);
    assert!(!consumer.is_complete());
    consumer.consume(b"starting\n", Some(0));
    assert_eq!(consumer.last, None);
    let update = consumer.consume(b"{\"progress\":4,\"total\":10}\n", Some(0));
    assert_eq!(update, BarUpdate { length: Some(10), position: Some(4), finish: false });
    assert_eq!(consumer.last, Some(Progress { progress: 4, total: 10 }));
    let update = consumer.consume(b"garbage\n", Some(10));
    assert_eq!(update, BarUpdate { length: None, position: None, finish: false });
    assert_eq!(consumer.last, Some(Progress { progress: 4, total: 10 }));
    assert!(!consumer.is_complete());
    consumer.consume(b"{\"progress\":10,\"total\":10}\n", Some(10));
    assert_eq!(consumer.last, Some(Progress { progress: 10, total: 10 }));
    assert!(consumer.is_complete());
}

#[test]
fn however_the_output_is_cut_the_same_records_are_read() {
    let records = ProgressReporter::new(1000).listen(&vec![100, 200, 300, 400]);
    let mut stream = Vec::new();
    for record in &records {
        stream.extend(encode_progress_line(*record));
    }
    for cut in 1..=stream.len() {
        let mut consumer = ProgressConsumer::new();
        let mut positions = Vec::new();
        for message in stream.chunks(cut) {
            if let Some(position) = consumer.consume(message, Some(1000)).position {
                positions.push(position);
            }
        }
        assert!(consumer.pending.is_empty());
        assert_eq!(consumer.last, Some(Progress { progress: 1000, total: 1000 }));
        assert!(positions.windows(2).all(|w| w[0] <= w[1]));
        assert_eq!(positions.last(), Some(&1000));
        if cut <= 20 {
            assert_eq!(positions, vec![100, 300, 600, 1000]);
        }
    }
}

#[test]
fn what_the_worker_emits_the_host_reads() {
    let chunks = vec![100u64, 200, 300, 400];
    let mut consumer = ProgressConsumer::new();
    let mut length = Some(0u64);
    let mut position = 0u64;
    let mut finished = false;
    for record in ProgressReporter::new(1000).listen(&chunks) {
        let update = consumer.consume(&encode_progress_line(record), length);
        if let Some(l) = update.length {
            length = Some(l);
        }
        if let Some(p) = update.position {
            assert!(p >= position);
            position = p;
        }
        finished = finished || update.finish;
    }
    assert_eq!(length, Some(1000));
    assert_eq!(position, 1000);
    assert!(finished);
    assert!(consumer.is_complete());
}

#[test]
fn the_end_of_the_output_ends_the_last_line() {
    let mut consumer = ProgressConsumer::new();
    consumer.consume(b"{\"progress\":4,\"total\":10}\n{\"progress\":10,\"total\":10}", Some(10));
    assert_eq!(consumer.last, Some(Progress { progress: 4, total: 10 }));
    assert!(!consumer.is_complete());
    let update = consumer.end_of_output(Some(10));
    assert_eq!(update, BarUpdate { length: None, position: Some(10), finish: true });
    assert!(consumer.pending.is_empty());
    assert!(consumer.is_complete());

    let mut consumer = ProgressConsumer::new();
    consumer.consume(b"{\"progress\":4,\"total\":10}\n{\"progr", Some(10));
    let update = consumer.end_of_output(Some(10));
    assert_eq!(update, BarUpdate { length: None, position: None, finish: false });
    assert_eq!(consumer.last, Some(Progress { progress: 4, total: 10 }));
    assert!(consumer.pending.is_empty());
}
