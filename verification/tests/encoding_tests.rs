use worker_launch::bundle::{Handle, SynchronizationBundle, CHANNEL_SIZE};
use worker_launch::cmdline::{is_safe_executable, ChannelArgs};
use worker_launch::error::{result_from_channel, result_from_windows, ChannelError, Error, OsError};
use worker_launch::frame::{decode_frame, encode_frame, FRAME_HEADER};

fn args(exe: &str, ids: [u64; 4]) -> ChannelArgs {
    ChannelArgs {
        exe: exe.to_string(),
        bundle: SynchronizationBundle {
            memory: Handle { id: ids[0] },
            lock: Handle { id: ids[1] },
            ready_event: Handle { id: ids[2] },
            ack_event: Handle { id: ids[3] },
        },
    }
}

#[test]
fn channel_results_keep_the_value_and_wrap_the_error() {
    assert_eq!(result_from_channel(Ok::<u8, ChannelError>(7)), Ok(7));
    assert_eq!(
        result_from_channel(Err::<u8, ChannelError>(ChannelError::Busy)),
        Err(Error::ChannelErr(ChannelError::Busy))
    );
    assert_eq!(
        result_from_channel(Err::<String, ChannelError>(ChannelError::MalformedFrame)),
        Err(Error::ChannelErr(ChannelError::MalformedFrame))
    );
}

#[test]
fn os_results_keep_the_value_and_wrap_the_error() {
    assert_eq!(result_from_windows(Ok::<&str, OsError>("made")), Ok("made"));
    assert_eq!(
        result_from_windows(Err::<(), OsError>(OsError { code: -2147024891 })),
        Err(Error::Windows(OsError { code: -2147024891 }))
    );
}

#[test]
fn the_two_layers_errors_differ() {
    assert_ne!(
        result_from_windows(Err::<(), OsError>(OsError { code: 0 })),
        result_from_channel(Err::<(), ChannelError>(ChannelError::UnexpectedReply))
    );
}

#[test]
fn handles_are_valid_unless_null_or_all_ones() {
    assert!(!Handle { id: 0 }.valid());
    assert!(!Handle { id: u64::MAX }.valid());
    assert!(Handle { id: 1 }.valid());
    assert!(Handle { id: u64::MAX - 1 }.valid());
    assert!(Handle { id: 0xFFFF_FFFF }.valid());
}

#[test]
fn bundles_know_validity_and_distinctness() {
    let good = args("w", [1, 2, 3, 4]).bundle;
    assert!(good.is_all_valid() && good.is_all_distinct());
    for slot in 0..4 {
        let mut ids = [1u64, 2, 3, 4];
        ids[slot] = 0;
        assert!(!args("w", ids).bundle.is_all_valid());
        assert!(args("w", ids).bundle.is_all_distinct());
        for other in 0..4 {
            if other != slot {
                let mut ids = [1u64, 2, 3, 4];
                ids[slot] = ids[other];
                assert!(!args("w", ids).bundle.is_all_distinct());
                assert!(args("w", ids).bundle.is_all_valid());
            }
        }
    }
    assert_eq!(CHANNEL_SIZE, 4096);
}

#[test]
fn the_command_line_is_the_quoted_path_and_four_decimal_numbers() {
    assert_eq!(
        args("C:\\Program Files\\worker.exe", [660, 664, 668, 672]).to_cmd_line(),
        Ok("\"C:\\Program Files\\worker.exe\" 660 664 668 672".to_string())
    );
    assert_eq!(args("w", [0, 9, 10, 99]).to_cmd_line(), Ok("\"w\" 0 9 10 99".to_string()));
    assert_eq!(
        args("w", [100, 1234567890, 18446744073709551615, 18446744073709551614]).to_cmd_line(),
        Ok("\"w\" 100 1234567890 18446744073709551615 18446744073709551614".to_string())
    );
    assert_eq!(
        args("trailing\\", [1, 2, 3, 4]).to_cmd_line(),
        Ok("\"trailing\\\" 1 2 3 4".to_string())
    );
    assert_eq!(
        args("würker — α.exe", [5, 6, 7, 8]).to_cmd_line(),
        Ok("\"würker — α.exe\" 5 6 7 8".to_string())
    );
}

#[test]
fn the_command_line_depends_on_nothing_but_its_arguments() {
    let first = args("worker.exe", [11, 22, 33, 44]).to_cmd_line();
    let second = args("worker.exe", [11, 22, 33, 44]).to_cmd_line();
    assert_eq!(first, second);
    assert_ne!(first, args("worker.exe", [11, 22, 44, 33]).to_cmd_line());
}

#[test]
fn a_path_that_cannot_be_quoted_is_refused() {
    for exe in ["", "\"", "a\"b", "worker.exe\"", "a\0b", "\0"] {
        assert!(!is_safe_executable(exe));
        assert_eq!(args(exe, [1, 2, 3, 4]).to_cmd_line(), Err(ChannelError::UnsafeExecutable));
    }
    for exe in ["w", "a b", "a'b", "a\\b", "a\tb"] {
        assert!(is_safe_executable(exe));
        assert!(args(exe, [1, 2, 3, 4]).to_cmd_line().is_ok());
    }
}

#[test]
fn a_frame_is_the_length_low_byte_first_and_the_payload() {
    assert_eq!(FRAME_HEADER, 4);
    assert_eq!(encode_frame(&vec![], 4096), Ok(vec![0, 0, 0, 0]));
    assert_eq!(encode_frame(&vec![0xAB], 4096), Ok(vec![1, 0, 0, 0, 0xAB]));
    assert_eq!(
        encode_frame(&b"hello-test".to_vec(), 4096),
        Ok(b"\x0a\x00\x00\x00hello-test".to_vec())
    );
    let long = encode_frame(&vec![1u8; 0x0102], 4096).unwrap();
    assert_eq!(&long[..4], &[0x02, 0x01, 0, 0]);
    assert_eq!(long.len(), 0x0106);
    let longer = encode_frame(&vec![2u8; 0x01_0203], 0x0200_0000).unwrap();
    assert_eq!(&longer[..4], &[0x03, 0x02, 0x01, 0]);
    let longest = encode_frame(&vec![3u8; 0x0100_0001], 0x0200_0000).unwrap();
    assert_eq!(&longest[..4], &[0x01, 0, 0, 0x01]);
    assert_eq!(decode_frame(&longest), Ok(vec![3u8; 0x0100_0001]));
}

#[test]
fn a_frame_must_fit_the_slot() {
    assert_eq!(encode_frame(&vec![0; 4092], 4096).map(|f| f.len()), Ok(4096));
    assert_eq!(encode_frame(&vec![0; 4093], 4096), Err(ChannelError::PayloadTooLarge));
    assert_eq!(encode_frame(&vec![], 4), Ok(vec![0, 0, 0, 0]));
    assert_eq!(encode_frame(&vec![], 3), Err(ChannelError::PayloadTooLarge));
    assert_eq!(encode_frame(&vec![], 0), Err(ChannelError::PayloadTooLarge));
    assert_eq!(encode_frame(&vec![1], 4), Err(ChannelError::PayloadTooLarge));
}

#[test]
fn decoding_takes_the_payload_and_ignores_what_follows() {
    assert_eq!(decode_frame(&vec![0, 0, 0, 0]), Ok(vec![]));
    assert_eq!(decode_frame(&vec![0, 0, 0, 0, 7, 7]), Ok(vec![]));
    assert_eq!(decode_frame(&vec![2, 0, 0, 0, 5, 6, 7, 8]), Ok(vec![5, 6]));
    assert_eq!(decode_frame(&vec![4, 0, 0, 0, 5, 6, 7, 8]), Ok(vec![5, 6, 7, 8]));
    let mut slot = vec![0u8; 4096];
    slot[0] = 0x2C;
    slot[1] = 0x01;
    for byte in &mut slot[4..304] {
        *byte = 0xEE;
    }
    assert_eq!(decode_frame(&slot), Ok(vec![0xEE; 300]));
}

#[test]
fn decoding_refuses_what_is_no_frame() {
    for slot in [
        vec![],
        vec![0],
        vec![0, 0, 0],
        vec![1, 0, 0, 0],
        vec![5, 0, 0, 0, 1, 2, 3, 4],
        vec![0, 1, 0, 0, 1, 2, 3, 4],
        vec![0, 0, 1, 0],
        vec![0, 0, 0, 1],
        vec![255, 255, 255, 255, 0, 0],
    ] {
        assert_eq!(decode_frame(&slot), Err(ChannelError::MalformedFrame));
    }
}

#[test]
fn decoding_undoes_encoding_whatever_the_slot_held_before() {
    for len in [0usize, 1, 2, 255, 256, 257, 4000, 4092] {
        let payload: Vec<u8> = (0..len).map(|i| (i * 7 + len) as u8).collect();
        let frame = encode_frame(&payload, 4096).unwrap();
        let mut slot = vec![0xFFu8; 4096];
        slot[..frame.len()].copy_from_slice(&frame);
        assert_eq!(decode_frame(&slot), Ok(payload.clone()));
        assert_eq!(decode_frame(&frame), Ok(payload));
    }
}

#[test]
fn a_command_line_is_read_back_as_what_it_was_made_of() {
    for (exe, ids) in [
        ("C:\\Program Files\\worker.exe", [660u64, 664, 668, 672]),
        ("w", [0, 0, 0, 0]),
        ("a b  c", [1, 10, 100, 1000]),
        ("trailing\\", [9, 99, 999, 9999]),
        ("würker — α.exe", [u64::MAX, u64::MAX - 1, 1 << 63, 1 << 32]),
        ("12 34", [18446744073709551615, 1844674407370955161, 10000000000000000000, 9]),
    ] {
        let made = args(exe, ids);
        let line = made.to_cmd_line().unwrap();
        assert_eq!(ChannelArgs::from_cmd_line(&line), Ok(made));
    }
}

#[test]
fn reading_yields_the_path_and_the_four_identities_in_order() {
    let read = ChannelArgs::from_cmd_line("\"C:\\bin\\worker.exe\" 100 104 108 112").unwrap();
    assert_eq!(read.exe, "C:\\bin\\worker.exe");
    assert_eq!(read.bundle.memory, Handle { id: 100 });
    assert_eq!(read.bundle.lock, Handle { id: 104 });
    assert_eq!(read.bundle.ready_event, Handle { id: 108 });
    assert_eq!(read.bundle.ack_event, Handle { id: 112 });
}

#[test]
fn what_is_no_command_line_is_not_read() {
    for line in [
        "",
        "\"",
        "\"\"",
        "\"w\"",
        "\"w\" ",
        "\"w\" 1",
        "\"w\" 1 2 3",
        "\"w\" 1 2 3 ",
        "\"w\" 1 2 3 4 ",
        "\"w\" 1 2 3 4 5",
        "\"w\"  1 2 3 4",
        "\"w\" 1  2 3 4",
        "\"w\"1 2 3 4",
        "w 1 2 3 4",
        " \"w\" 1 2 3 4",
        "\"\" 1 2 3 4",
        "\"w 1 2 3 4",
        "\"a\0b\" 1 2 3 4",
        "\"w\" 01 2 3 4",
        "\"w\" 1 2 3 00",
        "\"w\" 1 2 3 -4",
        "\"w\" 1 2 3 +4",
        "\"w\" 1 2 3 4x",
        "\"w\" 1 2 0x3 4",
        "\"w\" 1 2 3 ٤",
        "\"w\" 1\t2 3 4",
        "\"w\" 18446744073709551616 2 3 4",
        "\"w\" 1 2 3 184467440737095516150",
        "\"w\" 1 2 3 99999999999999999999999999999999999999999",
        "\"w\"x\" 1 2 3 4",
    ] {
        assert_eq!(
            ChannelArgs::from_cmd_line(line),
            Err(ChannelError::MalformedCommandLine),
            "{:?}",
            line
        );
    }
    assert!(ChannelArgs::from_cmd_line("\"w\" 18446744073709551615 2 3 4").is_ok());
    assert!(ChannelArgs::from_cmd_line("\"w\" 0 0 0 0").is_ok());
}
