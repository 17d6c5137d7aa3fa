use pit_cli::digest::content_digest;
use pit_cli::paths::{endpoint_url, join_path};
use pit_cli::units::{parse_duration_ms, parse_memory_bytes, UnitError};

#[test]
fn durations_read_in_milliseconds() {
    assert_eq!(parse_duration_ms("500ms"), Ok(500));
    assert_eq!(parse_duration_ms("2s"), Ok(2000));
    assert_eq!(parse_duration_ms("1m"), Ok(60000));
    assert_eq!(parse_duration_ms("+3s"), Ok(3000));
}

#[test]
fn durations_without_a_unit_or_number_are_refused() {
    assert_eq!(parse_duration_ms("2h"), Err(UnitError::DurationUnit));
    assert_eq!(parse_duration_ms("20"), Err(UnitError::DurationUnit));
    assert_eq!(parse_duration_ms("ms"), Err(UnitError::DurationValue));
    assert_eq!(parse_duration_ms(" 2s"), Err(UnitError::DurationValue));
    assert_eq!(parse_duration_ms("18446744073709551615s"), Err(UnitError::DurationValue));
    assert_eq!(
        UnitError::DurationUnit.message(),
        "duration must use ms, s, or m (for example 2s)"
    );
    assert_eq!(UnitError::DurationValue.message(), "duration is invalid or too large");
}

#[test]
fn memory_sizes_read_in_bytes() {
    assert_eq!(parse_memory_bytes("64KiB"), Ok(65536));
    assert_eq!(parse_memory_bytes("64MiB"), Ok(64 * 1024 * 1024));
    assert_eq!(parse_memory_bytes("2GiB"), Ok(2 * 1024 * 1024 * 1024));
    assert_eq!(parse_memory_bytes("64MB"), Err(UnitError::MemoryUnit));
    assert_eq!(parse_memory_bytes("x MiB"), Err(UnitError::MemoryValue));
    assert_eq!(parse_memory_bytes("18446744073709551615GiB"), Err(UnitError::MemoryValue));
    assert_eq!(
        UnitError::MemoryUnit.message(),
        "memory must use KiB, MiB, or GiB (for example 64MiB)"
    );
    assert_eq!(UnitError::MemoryValue.message(), "memory is invalid or too large");
}

#[test]
fn duration_round_trip_examples() {
    for n in [0u64, 7, 42, 1000] {
        assert_eq!(parse_duration_ms(&format!("{n}ms")), Ok(n));
        assert_eq!(parse_duration_ms(&format!("{n}s")), Ok(n * 1000));
        assert_eq!(parse_memory_bytes(&format!("{n}MiB")), Ok(n * 1048576));
    }
}

#[test]
fn digest_of_empty_text() {
    assert_eq!(
        content_digest(""),
        "sha256:e3b0c44298fc1c149afbf4c8996fb92427ae41e4649b934ca495991b7852b855"
    );
    assert_eq!(
        content_digest("hello"),
        "sha256:2cf24dba5fb0a30e26e83b2ac5b9e29e1b161e5c1fa7425e73043362938b9824"
    );
}

#[test]
fn paths_join_like_unix_paths() {
    assert_eq!(join_path("/a", "b"), "/a/b");
    assert_eq!(join_path("/a/", "b"), "/a/b");
    assert_eq!(join_path("/a", "/b"), "/b");
    assert_eq!(join_path("", "b"), "b");
    assert_eq!(endpoint_url("http://x:1//", "/v1"), "http://x:1/v1");
}
