use zou::cargo_helper::ProbeResponse;
use zou::client::Config;
use zou::filesize::{u64_to_decimal, FileSize, StringFileSize};
use zou::protocol::{get_protocol, Protocol};
use zou::read::{check_for_null_bytes, InputChunkReader, BUF_LENGTH};
use zou::response::CheckResponseStatus;
use zou::util::str_eq;
use zou::RangeBytes;

#[test]
fn unit_values() {
    assert_eq!(FileSize::B.value(), 1);
    assert_eq!(FileSize::KB.value(), 1_024);
    assert_eq!(FileSize::MB.value(), 1_048_576);
    assert_eq!(FileSize::GB.value(), 1_073_741_824);
    assert_eq!(FileSize::TB.value(), 1_099_511_627_776);
}

#[test]
fn decimal_rendering() {
    assert_eq!(u64_to_decimal(0), "0");
    assert_eq!(u64_to_decimal(7), "7");
    assert_eq!(u64_to_decimal(10), "10");
    assert_eq!(u64_to_decimal(987_654_321), "987654321");
}

#[test]
fn file_sizes_are_rendered_in_their_unit() {
    assert_eq!(StringFileSize::from(0).to_string(), "0.00 B");
    assert_eq!(StringFileSize::from(999).to_string(), "999.00 B");
    // 10_000 bytes are 9.765625 binary kilobytes, truncated to two decimals
    assert_eq!(StringFileSize::from(10_000).to_string(), "9.76 KB");
    assert_eq!(StringFileSize::from(1_500_000).to_string(), "1.43 MB");
    assert_eq!(StringFileSize::from(5_000_000_000).to_string(), "4.65 GB");
    assert_eq!(
        StringFileSize::from(2_000_000_000_000).to_string(),
        "1.81 TB"
    );
}

#[test]
fn protocol_from_url() {
    assert_eq!(
        get_protocol("http://example.com/file.iso"),
        Some(Protocol::HTTP)
    );
    assert_eq!(
        get_protocol("https://example.com/file.iso"),
        Some(Protocol::HTTPS)
    );
    assert_eq!(get_protocol("ftp://example.com/file.iso"), None);
    assert_eq!(get_protocol("not a url at all"), None);
    // the scheme comes out of the parser lower-cased
    assert_eq!(
        get_protocol("HTTP://example.com/file.iso"),
        Some(Protocol::HTTP)
    );
}

#[test]
fn string_equality() {
    assert!(str_eq("http", "http"));
    assert!(!str_eq("http", "https"));
    assert!(!str_eq("https", "http"));
    assert!(str_eq("", ""));
}

#[test]
fn null_byte_runs_are_found() {
    let mut buffer = [1u8; BUF_LENGTH];
    for i in 10..20 {
        buffer[i] = 0;
    }
    for i in 1020..1024 {
        buffer[i] = 0;
    }
    assert_eq!(
        check_for_null_bytes(&buffer),
        vec![RangeBytes(10, 20), RangeBytes(1020, 1024)]
    );
}

#[test]
fn null_byte_runs_edge_cases() {
    let zeroes = [0u8; BUF_LENGTH];
    assert_eq!(
        check_for_null_bytes(&zeroes),
        vec![RangeBytes(0, BUF_LENGTH as u64)]
    );
    let ones = [1u8; BUF_LENGTH];
    assert_eq!(check_for_null_bytes(&ones), vec![]);
}

#[test]
fn input_chunk_reader_starts_empty() {
    let reader = InputChunkReader::new();
    assert!(reader.zero_bytes_chunks.is_empty());
}

#[test]
fn response_status_checks() {
    let partial = ProbeResponse {
        status: 206,
        auth_type: None,
        content_length: Some(2),
    };
    assert!(partial.check_partialcontent_status());
    assert!(partial.is_ok());
    let plain = ProbeResponse {
        status: 200,
        auth_type: None,
        content_length: Some(2),
    };
    assert!(!plain.check_partialcontent_status());
    assert!(plain.is_ok());
    let missing = ProbeResponse {
        status: 404,
        auth_type: None,
        content_length: None,
    };
    assert!(!missing.check_partialcontent_status());
    assert!(!missing.is_ok());
}

#[test]
fn config_keeps_the_ssl_choice() {
    assert!(Config::new(true).enable_ssl);
    assert!(!Config::new(false).enable_ssl);
    assert_eq!(Config::new(true), Config { enable_ssl: true });
}
