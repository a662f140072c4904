use ice_output::decoder::{next_record, read_log_chunks, LogDecoder, LogSink, ReadOutcome, ReadStep};
use ice_output::utf8::{cut_piece, end_of_valid, Cut};

/// Takes a number of texts, then fails.
struct Limited {
    texts: Vec<String>,
    room: usize,
}

impl LogSink for Limited {
    type Error = String;

    fn emit(&mut self, text: &str) -> Result<(), String> {
        if self.texts.len() == self.room {
            return Err(format!("no room for {text}"));
        }
        self.texts.push(text.to_owned());
        Ok(())
    }
}

fn fed_in_chunks(bytes: &[u8], size: usize) -> Vec<String> {
    let mut decoder = LogDecoder::default();
    let mut texts: Vec<String> = Vec::new();
    for chunk in bytes.chunks(size) {
        decoder.feed(chunk, false, &mut texts).unwrap();
    }
    decoder.feed(&[], true, &mut texts).unwrap();
    texts
}

#[test]
fn streaming_decoder_preserves_split_unicode_and_replaces_invalid_bytes() {
    let mut decoder = LogDecoder::default();
    let mut output: Vec<String> = Vec::new();
    for byte in "hello 🦀\n終".as_bytes() {
        decoder.feed(&[*byte], false, &mut output).unwrap();
    }
    decoder.feed(&[0xff, 0xe2], true, &mut output).unwrap();
    assert_eq!(output.concat(), "hello 🦀\n終\u{fffd}\u{fffd}");
}

#[test]
fn chunks_do_not_change_the_text() {
    let samples: Vec<Vec<u8>> = vec![
        b"plain".to_vec(),
        "h\u{e9}llo \u{20ac} 🦀\n終".as_bytes().to_vec(),
        vec![0xff, 0xfe, 0x41],
        vec![0xe2, 0x82, 0x41, 0xe2, 0x82],
        vec![0xf0, 0x9f, 0xa6, 0x41, 0xf0, 0x9f, 0xa6],
        vec![0xed, 0xa0, 0x80],
        vec![0xe0, 0x80, 0x80, 0xc0, 0xaf, 0xc3],
        vec![0xf4, 0x90, 0x80, 0x80, 0xf5, 0x80],
    ];
    for bytes in &samples {
        for size in 1..bytes.len() + 1 {
            assert_eq!(
                fed_in_chunks(bytes, size).concat(),
                String::from_utf8_lossy(bytes).into_owned()
            );
        }
    }
}

#[test]
fn pieces_agree_with_the_standard_library() {
    let probes: Vec<u8> = vec![
        0x00, 0x41, 0x7f, 0x80, 0x8f, 0x90, 0x9f, 0xa0, 0xbf, 0xc0, 0xc1, 0xc2, 0xdf, 0xe0, 0xe1,
        0xed, 0xef, 0xf0, 0xf1, 0xf4, 0xf5, 0xff,
    ];
    for a in &probes {
        for b in &probes {
            for c in &probes {
                for d in &[0x41u8, 0x80, 0xff] {
                    let bytes = [*a, *b, *c, *d];
                    for length in 1..5 {
                        let part = &bytes[..length];
                        match std::str::from_utf8(part) {
                            Ok(_) => assert_eq!(end_of_valid(part, 0), length),
                            Err(error) => {
                                let at = error.valid_up_to();
                                assert_eq!(end_of_valid(part, 0), at);
                                let expected = match error.error_len() {
                                    Some(n) => Cut::Invalid(n),
                                    None => Cut::Incomplete,
                                };
                                assert_eq!(cut_piece(part, at), expected);
                            }
                        }
                    }
                }
            }
        }
    }
}

#[test]
fn each_replacement_is_a_text_of_its_own() {
    let mut decoder = LogDecoder::default();
    let mut texts: Vec<String> = Vec::new();
    decoder
        .feed(b"ab\xff\xfecd\xe2\x82", false, &mut texts)
        .unwrap();
    assert_eq!(texts, vec!["ab", "\u{fffd}", "\u{fffd}", "cd"]);
    decoder.feed(&[0xac], false, &mut texts).unwrap();
    assert_eq!(texts.last().unwrap(), "\u{20ac}");
}

#[test]
fn the_next_record_tells_where_it_ends() {
    assert_eq!(next_record(b"ab\xffc", 0), Some(("ab", 2)));
    assert_eq!(next_record(b"ab\xffc", 2), Some(("\u{fffd}", 3)));
    assert_eq!(next_record(b"ab\xffc", 3), Some(("c", 4)));
    assert_eq!(next_record(b"ab\xffc", 4), None);
    assert_eq!(next_record(b"\xe2\x82", 0), None);
}

#[test]
fn nothing_is_emitted_for_nothing() {
    let mut decoder = LogDecoder::default();
    let mut texts: Vec<String> = Vec::new();
    decoder.feed(&[], false, &mut texts).unwrap();
    decoder.feed(&[], true, &mut texts).unwrap();
    assert!(texts.is_empty());
}

#[test]
fn an_incomplete_end_is_replaced_once_when_the_log_ends() {
    let mut decoder = LogDecoder::default();
    let mut texts: Vec<String> = Vec::new();
    decoder.feed(&[0xf0, 0x9f, 0xa6], false, &mut texts).unwrap();
    assert!(texts.is_empty());
    decoder.feed(&[], true, &mut texts).unwrap();
    assert_eq!(texts, vec!["\u{fffd}"]);
    decoder.feed(b"a", true, &mut texts).unwrap();
    assert_eq!(texts, vec!["\u{fffd}", "a"]);
}

#[test]
fn a_failing_sink_stops_the_decoder_and_keeps_the_bytes() {
    let mut decoder = LogDecoder::default();
    let mut sink = Limited {
        texts: Vec::new(),
        room: 1,
    };
    let error = decoder.feed(b"ab\xffcd", false, &mut sink).unwrap_err();
    assert_eq!(error, "no room for \u{fffd}");
    assert_eq!(sink.texts, vec!["ab"]);
    let mut rest: Vec<String> = Vec::new();
    decoder.feed(&[], false, &mut rest).unwrap();
    assert_eq!(rest, vec!["ab", "\u{fffd}", "cd"]);
}

#[test]
fn a_sink_that_fails_on_the_end_keeps_only_the_end() {
    let mut decoder = LogDecoder::default();
    let mut sink = Limited {
        texts: Vec::new(),
        room: 1,
    };
    assert!(decoder.feed(b"ab\xe2", true, &mut sink).is_err());
    let mut rest: Vec<String> = Vec::new();
    decoder.feed(&[0x82, 0xac], true, &mut rest).unwrap();
    assert_eq!(rest, vec!["\u{20ac}"]);
}

#[test]
fn a_log_is_read_until_nothing_comes() {
    let mut decoder = LogDecoder::default();
    let mut texts: Vec<String> = Vec::new();
    let first = read_log_chunks(&mut decoder, ReadOutcome::Bytes(b"a\xe2"), &mut texts);
    assert_eq!(first, Ok(ReadStep::ReadAgain));
    let interrupted = read_log_chunks(&mut decoder, ReadOutcome::Interrupted, &mut texts);
    assert_eq!(interrupted, Ok(ReadStep::ReadAgain));
    let second = read_log_chunks(&mut decoder, ReadOutcome::Bytes(b"\x82\xacb\xc3"), &mut texts);
    assert_eq!(second, Ok(ReadStep::ReadAgain));
    let end = read_log_chunks(&mut decoder, ReadOutcome::Bytes(&[]), &mut texts);
    assert_eq!(end, Ok(ReadStep::Finished));
    assert_eq!(texts, vec!["a", "\u{20ac}b", "\u{fffd}"]);
}

#[test]
fn a_failed_read_is_reported() {
    let mut decoder = LogDecoder::default();
    let mut sink = Limited {
        texts: Vec::new(),
        room: 0,
    };
    let failed = read_log_chunks(
        &mut decoder,
        ReadOutcome::Failed("gone".to_owned()),
        &mut sink,
    );
    assert_eq!(failed, Err("gone".to_owned()));
    let refused = read_log_chunks(&mut decoder, ReadOutcome::Bytes(b"x"), &mut sink);
    assert_eq!(refused, Err("no room for x".to_owned()));
}

/// Refuses one call, by its number, and notes every call.
struct Moody {
    calls: Vec<String>,
    refused: usize,
}

impl LogSink for Moody {
    type Error = usize;

    fn emit(&mut self, text: &str) -> Result<(), usize> {
        self.calls.push(text.to_owned());
        if self.calls.len() == self.refused {
            Err(self.refused)
        } else {
            Ok(())
        }
    }
}

#[test]
fn nothing_is_handed_on_after_a_refusal() {
    let expected = ["ab", "\u{fffd}", "cd", "\u{fffd}"];
    for refused in 1..6 {
        let mut decoder = LogDecoder::default();
        let mut sink = Moody {
            calls: Vec::new(),
            refused,
        };
        let result = decoder.feed(b"ab\xffcd\xe2", true, &mut sink);
        if refused <= expected.len() {
            assert_eq!(result, Err(refused));
            assert_eq!(sink.calls, expected[..refused]);
        } else {
            assert_eq!(result, Ok(()));
            assert_eq!(sink.calls, expected);
        }
    }
}

#[test]
fn a_refusal_ends_the_copy_of_a_log() {
    let mut decoder = LogDecoder::default();
    let mut sink = Moody {
        calls: Vec::new(),
        refused: 2,
    };
    let first = read_log_chunks(&mut decoder, ReadOutcome::Bytes(b"a"), &mut sink);
    assert_eq!(first, Ok(ReadStep::ReadAgain));
    let second = read_log_chunks(&mut decoder, ReadOutcome::Bytes(b"b\xffc"), &mut sink);
    assert_eq!(second, Err(2));
    assert_eq!(sink.calls, vec!["a", "b"]);
}

fn copied(chunks: &[&[u8]], interruptions: usize, refused: usize) -> (Option<usize>, Vec<String>) {
    let mut decoder = LogDecoder::default();
    let mut sink = Moody {
        calls: Vec::new(),
        refused,
    };
    for chunk in chunks {
        for _ in 0..interruptions {
            let step = read_log_chunks(&mut decoder, ReadOutcome::Interrupted, &mut sink);
            assert_eq!(step, Ok(ReadStep::ReadAgain));
        }
        match read_log_chunks(&mut decoder, ReadOutcome::Bytes(chunk), &mut sink) {
            Ok(ReadStep::ReadAgain) => {}
            Ok(ReadStep::Finished) => return (None, sink.calls),
            Err(error) => return (Some(error), sink.calls),
        }
    }
    panic!("the log has no end");
}

#[test]
fn interruptions_do_not_matter() {
    let chunks: [&[u8]; 4] = [b"a\xe2", b"\x82\xacb\xff", b"c\xc3", b""];
    for refused in 1..8 {
        let plain = copied(&chunks, 0, refused);
        assert_eq!(copied(&chunks, 1, refused), plain);
        assert_eq!(copied(&chunks, 3, refused), plain);
    }
    let (error, calls) = copied(&chunks, 2, 7);
    assert_eq!(error, None);
    assert_eq!(calls, vec!["a", "\u{20ac}b", "\u{fffd}", "c", "\u{fffd}"]);
}
