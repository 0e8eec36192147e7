use tuner_server::RelayEvent;
use tuner_server::build_launch_command;
use tuner_server::nth_token;
use tuner_server::relay_continues;
use tuner_server::split_chunks;
use tuner_server::trim_leading_bom;

#[test]
fn split_keeps_delimiter_at_chunk_ends() {
    let data: Vec<u8> = b"ab-cd-e".to_vec();
    let chunks = split_chunks(&data, b'-');
    assert_eq!(chunks, vec![b"ab-".to_vec(), b"cd-".to_vec(), b"e".to_vec()]);
}

#[test]
fn split_of_empty_stream_is_empty() {
    let data: Vec<u8> = Vec::new();
    let chunks = split_chunks(&data, b'-');
    assert!(chunks.is_empty());
}

#[test]
fn split_of_delimiters_only() {
    let data: Vec<u8> = b"---".to_vec();
    let chunks = split_chunks(&data, b'-');
    assert_eq!(chunks, vec![b"-".to_vec(), b"-".to_vec(), b"-".to_vec()]);
}

#[test]
fn three_delimiter_bounded_chunks_arrive_in_emission_order() {
    let data: Vec<u8> = b"one-two-three-".to_vec();
    let chunks = split_chunks(&data, b'-');
    assert_eq!(chunks.len(), 3);
    assert_eq!(chunks[0], b"one-".to_vec());
    assert_eq!(chunks[1], b"two-".to_vec());
    assert_eq!(chunks[2], b"three-".to_vec());
    let rebuilt: Vec<u8> = chunks.concat();
    assert_eq!(rebuilt, data);
}

#[test]
fn relay_stops_on_eof_error_and_disconnect() {
    assert!(relay_continues(&RelayEvent::Read { ok: true, length: 188 }));
    assert!(!relay_continues(&RelayEvent::Read { ok: true, length: 0 }));
    assert!(!relay_continues(&RelayEvent::Read { ok: false, length: 7 }));
    assert!(relay_continues(&RelayEvent::Sent { ok: true }));
    assert!(!relay_continues(&RelayEvent::Sent { ok: false }));
}

#[test]
fn nth_token_splits_on_ascii_whitespace() {
    let cmd = "recisdb tune --device /dev/px4video2 --no-strip --channel";
    assert_eq!(nth_token(cmd, 0), Some("recisdb".to_owned()));
    assert_eq!(nth_token(cmd, 3), Some("/dev/px4video2".to_owned()));
    assert_eq!(nth_token(cmd, 5), Some("--channel".to_owned()));
    assert_eq!(nth_token(cmd, 6), None);
}

#[test]
fn nth_token_ignores_repeated_and_leading_spaces() {
    assert_eq!(nth_token("  a \t b\n c ", 2), Some("c".to_owned()));
    assert_eq!(nth_token("", 0), None);
    assert_eq!(nth_token("   ", 0), None);
}

#[test]
fn trim_leading_bom_strips_only_the_front() {
    assert_eq!(trim_leading_bom("\u{feff}NHK"), "NHK".to_owned());
    assert_eq!(trim_leading_bom("NHK"), "NHK".to_owned());
    assert_eq!(trim_leading_bom("\u{feff}\u{feff}x"), "x".to_owned());
    assert_eq!(trim_leading_bom("a\u{feff}b"), "a\u{feff}b".to_owned());
    assert_eq!(trim_leading_bom(""), "".to_owned());
}

#[test]
fn direct_tuning_command_uses_the_fixed_argument_convention() {
    let c = build_launch_command(&"/dev/video5".to_owned(), &"27".to_owned(), false);
    assert_eq!(c.program, "recisdb".to_owned());
    assert_eq!(
        c.args,
        vec![
            "tune".to_owned(),
            "--device".to_owned(),
            "/dev/video5".to_owned(),
            "--no-strip".to_owned(),
            "--channel".to_owned(),
            "27".to_owned(),
            "-".to_owned(),
        ]
    );
}

#[test]
fn transcode_command_invokes_the_pipeline_script() {
    let c = build_launch_command(&"/dev/video5".to_owned(), &"27".to_owned(), true);
    assert_eq!(c.program, "./ffmpeg_pipe.sh".to_owned());
    assert_eq!(c.args, vec!["/dev/video5".to_owned(), "27".to_owned()]);
}

#[test]
fn concatenated_chunks_rebuild_a_stream_without_final_delimiter() {
    let data: Vec<u8> = b"alpha-beta".to_vec();
    let chunks = split_chunks(&data, b'-');
    assert_eq!(chunks.len(), 2);
    assert_eq!(chunks[0], b"alpha-".to_vec());
    assert_eq!(chunks[1], b"beta".to_vec());
    let rebuilt: Vec<u8> = chunks.concat();
    assert_eq!(rebuilt, data);
}
