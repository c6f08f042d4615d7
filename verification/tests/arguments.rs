use rclone_gui::args::{
    build_arguments, hint_size_of, tuning_of, CHUNK_SAFETY_THRESHOLD_MIB, DEFAULT_CUTOFF_MIB,
    DEFAULT_STREAMS, MAX_CHUNK_CEILING_MIB, MAX_STREAMS,
};
use rclone_gui::models::SyncRequest;

fn request(hint: Option<&str>) -> SyncRequest {
    SyncRequest {
        source_path: "/data/photos".to_string(),
        remote_name: "cloud".to_string(),
        remote_path: "backup/photos".to_string(),
        chunk_size: hint.map(|h| h.to_string()),
        use_chunking: None,
    }
}

const FIXED: [&str; 15] = [
    "copy",
    "--config",
    "data/cfg/rclone.conf",
    "/data/photos",
    "cloud:backup/photos",
    "-P",
    "--stats=1s",
    "--transfers=1",
    "--checkers=1",
    "--retries=3",
    "--low-level-retries=3",
    "--timeout=0",
    "--contimeout=60s",
    "--ignore-checksum",
    "--size-only",
];

fn expected(tail: &[&str]) -> Vec<String> {
    FIXED.iter().chain(tail.iter()).map(|s| s.to_string()).collect()
}

#[test]
fn hint_32m_gives_six_streams_and_a_safe_chunk() {
    let set = build_arguments("data/cfg/rclone.conf", &request(Some("32M")));
    assert_eq!(set.tuning.streams, 6);
    assert_eq!(set.tuning.cutoff_mib, 32);
    assert_eq!(set.tuning.chunk_ceiling_mib, Some(32));
    assert!(set.tuning.chunk_ceiling_mib.unwrap() < CHUNK_SAFETY_THRESHOLD_MIB);
    assert_eq!(
        set.args,
        expected(&[
            "--multi-thread-streams=6",
            "--multi-thread-cutoff=32M",
            "--webdav-nextcloud-chunk-size=32M"
        ])
    );
}

#[test]
fn hint_above_the_threshold_is_cut_down() {
    let set = build_arguments("data/cfg/rclone.conf", &request(Some("128M")));
    assert_eq!(set.tuning.streams, 8);
    assert_eq!(set.tuning.cutoff_mib, 128);
    assert_eq!(set.tuning.chunk_ceiling_mib, Some(MAX_CHUNK_CEILING_MIB));
    assert_eq!(set.tuning.chunk_ceiling_mib, Some(96));
    assert!(128 > CHUNK_SAFETY_THRESHOLD_MIB);
    assert!(set.tuning.chunk_ceiling_mib.unwrap() < CHUNK_SAFETY_THRESHOLD_MIB);
    assert_eq!(
        set.args,
        expected(&[
            "--multi-thread-streams=8",
            "--multi-thread-cutoff=128M",
            "--webdav-nextcloud-chunk-size=96M"
        ])
    );
}

#[test]
fn every_hint_of_the_table() {
    let rows: [(&str, u64, u64, u64); 5] =
        [("8M", 2, 8, 8), ("16M", 4, 16, 16), ("32M", 6, 32, 32), ("64M", 8, 64, 64), ("128M", 8, 128, 96)];
    let mut last_streams = 0;
    for (hint, streams, cutoff, ceiling) in rows {
        let t = tuning_of(&Some(hint.to_string()));
        assert_eq!(t.streams, streams);
        assert_eq!(t.cutoff_mib, cutoff);
        assert_eq!(t.chunk_ceiling_mib, Some(ceiling));
        assert!(t.streams <= MAX_STREAMS);
        assert!(t.streams >= last_streams);
        assert!(ceiling < CHUNK_SAFETY_THRESHOLD_MIB);
        last_streams = t.streams;
    }
}

#[test]
fn no_hint_gives_the_defaults() {
    let set = build_arguments("data/cfg/rclone.conf", &request(None));
    assert_eq!(set.tuning.streams, DEFAULT_STREAMS);
    assert_eq!(set.tuning.streams, 4);
    assert_eq!(set.tuning.cutoff_mib, DEFAULT_CUTOFF_MIB);
    assert_eq!(set.tuning.cutoff_mib, 250);
    assert_eq!(set.tuning.chunk_ceiling_mib, None);
    assert_eq!(set.args, expected(&["--multi-thread-streams=4", "--multi-thread-cutoff=250M"]));
}

#[test]
fn unknown_hint_gives_the_defaults() {
    for hint in ["", "7M", "32m", "32", "32MB", "1G", " 32M", "--delete-before"] {
        let set = build_arguments("data/cfg/rclone.conf", &request(Some(hint)));
        assert_eq!(set.tuning.streams, 4);
        assert_eq!(set.tuning.cutoff_mib, 250);
        assert_eq!(set.tuning.chunk_ceiling_mib, None);
        assert_eq!(set.args, expected(&["--multi-thread-streams=4", "--multi-thread-cutoff=250M"]));
    }
}

#[test]
fn hint_sizes() {
    assert_eq!(hint_size_of("8M"), Some(8));
    assert_eq!(hint_size_of("16M"), Some(16));
    assert_eq!(hint_size_of("32M"), Some(32));
    assert_eq!(hint_size_of("64M"), Some(64));
    assert_eq!(hint_size_of("128M"), Some(128));
    assert_eq!(hint_size_of("256M"), None);
}

#[test]
fn arguments_carry_the_request_as_it_is() {
    let request = SyncRequest {
        source_path: "/data/my files/ü".to_string(),
        remote_name: "r".to_string(),
        remote_path: "".to_string(),
        chunk_size: None,
        use_chunking: Some(true),
    };
    let set = build_arguments("/etc/rclone.conf", &request);
    assert_eq!(set.args[2], "/etc/rclone.conf");
    assert_eq!(set.args[3], "/data/my files/ü");
    assert_eq!(set.args[4], "r:");
    assert_eq!(set.args.len(), 17);
}
