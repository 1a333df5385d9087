use dotdeploy::checksum::{checksum_from_output, sha256_hex, to_hex, ChecksumError};
use dotdeploy::perms::{perms_int_to_str, perms_str_to_int, PermissionsError};
use dotdeploy::text::{lines, parse_u32, split_char, trim, trim_matches_char};

#[test]
fn permission_strings() {
    assert_eq!(perms_int_to_str(33206).unwrap(), "666");
    assert_eq!(perms_int_to_str(0o100644).unwrap(), "644");
    assert_eq!(perms_str_to_int("644").unwrap(), 0o644);
    assert_eq!(perms_str_to_int("0755").unwrap(), 0o755);
    assert_eq!(perms_str_to_int("9").unwrap_err(), PermissionsError::InvalidOctal);
    assert_eq!(perms_str_to_int("").unwrap_err(), PermissionsError::InvalidOctal);
    for p in [0o100600u32, 0o40755, 0o120777, 0o644] {
        let s = perms_int_to_str(p).unwrap();
        assert_eq!(perms_str_to_int(&s).unwrap(), p & 0o777);
    }
}

#[test]
fn sha256_known_values() {
    assert_eq!(sha256_hex(b""), "e3b0c44298fc1c149afbf4c8996fb92427ae41e4649b934ca495991b7852b855");
    assert_eq!(sha256_hex(b"abc"), "ba7816bf8f01cfea414140de5dae2223b00361a396177a9cb410ff61f20015ad");
    assert_eq!(to_hex(&[0, 15, 255]), "000fff");
}

#[test]
fn checksum_command_output() {
    assert_eq!(checksum_from_output(b"abc123  /tmp/file\n").unwrap(), "abc123");
    assert_eq!(checksum_from_output(b"").unwrap_err(), ChecksumError::NoOutput);
    assert_eq!(checksum_from_output(&[0xff, 0xfe]).unwrap_err(), ChecksumError::NotUtf8);
    assert_eq!(checksum_from_output(b"  \n").unwrap_err(), ChecksumError::NoChecksum);
}

#[test]
fn text_helpers() {
    assert_eq!(trim("  a b \t"), "a b");
    assert_eq!(trim_matches_char("\"\"x\"", '"'), "x");
    assert_eq!(lines("a\r\nb\n\nc"), vec!["a", "b", "", "c"]);
    assert_eq!(lines("a\n"), vec!["a"]);
    assert!(lines("").is_empty());
    assert_eq!(split_char("1000:1000", ':'), vec!["1000", "1000"]);
    assert_eq!(split_char("", ':'), vec![""]);
    assert_eq!(parse_u32("+42"), Some(42));
    assert_eq!(parse_u32("4294967295"), Some(u32::MAX));
    assert_eq!(parse_u32("4294967296"), None);
    assert_eq!(parse_u32("-1"), None);
    assert_eq!(parse_u32("+"), None);
    assert_eq!(parse_u32("12a"), None);
}

#[test]
fn test_calculate_sha256_checksum() {
    // The checksum of a file read directly, and the one read from the
    // output of `sha256sum` for a file that needs elevated rights, agree.
    let temp_file = tempfile::NamedTempFile::new().unwrap();
    let mut file = temp_file.reopen().unwrap();
    let mut content = Vec::new();
    std::io::Read::read_to_end(&mut file, &mut content).unwrap();
    let checksum = sha256_hex(&content);
    assert!(!checksum.is_empty());
    let output = format!("{}  {}\n", checksum, temp_file.path().display());
    let checksum_sudo = checksum_from_output(output.as_bytes()).unwrap();
    assert_eq!(checksum, checksum_sudo);
}
