use ontime::cli::{
    parse_compression_format, parse_level, parse_u8, validate_time, CliError, Compression,
    FileFormat, Fastx,
};
use std::path::Path;

#[test]
fn compression_format_from_str() {
    let mut s = "B";
    assert_eq!(parse_compression_format(s).unwrap(), Compression::Bzip);

    s = "g";
    assert_eq!(parse_compression_format(s).unwrap(), Compression::Gzip);

    s = "l";
    assert_eq!(parse_compression_format(s).unwrap(), Compression::Lzma);

    s = "U";
    assert_eq!(parse_compression_format(s).unwrap(), Compression::No);

    s = "a";
    assert_eq!(
        parse_compression_format(s).unwrap_err(),
        CliError::InvalidCompression(s.to_string())
    );
}

#[test]
fn test_in_compress_range() {
    assert!(parse_level("1").is_ok());
    assert!(parse_level("9").is_ok());
    assert!(parse_level("0").is_err());
    assert!(parse_level("10").is_err());
    assert!(parse_level("f").is_err());
    assert!(parse_level("5.5").is_err());
    assert!(parse_level("-3").is_err());
}

#[test]
fn level_values_and_message() {
    assert_eq!(parse_level("6"), Ok(6));
    assert_eq!(parse_level("+3"), Ok(3));
    assert_eq!(parse_level("007"), Ok(7));
    assert_eq!(
        parse_level("12"),
        Err("Compression level 12 not in the range 1-9".to_string())
    );
}

#[test]
fn u8_parsing_follows_std() {
    for s in ["0", "255", "+1", "256", "", "+", "-1", "1 ", "0255", "99999999999"] {
        assert_eq!(parse_u8(s), s.parse::<u8>().ok(), "{s}");
    }
}

#[test]
fn compression_format_from_path() {
    assert_eq!(Compression::from_path("foo.gz"), Compression::Gzip);
    assert_eq!(
        Compression::from_path(Path::new("foo.gz").to_str().unwrap()),
        Compression::Gzip
    );
    assert_eq!(Compression::from_path("baz"), Compression::No);
    assert_eq!(Compression::from_path("baz.fq"), Compression::No);
    assert_eq!(Compression::from_path("baz.fq.bz2"), Compression::Bzip);
    assert_eq!(Compression::from_path("baz.fq.bz"), Compression::Bzip);
    assert_eq!(Compression::from_path("baz.fq.lzma"), Compression::Lzma);
}

#[test]
fn test_validate_time() {
    let valid_times = [
        "2022-12-12T18:39:09Z",
        "1d11h32m21s",
        "11s",
        "-12h30m",
        "1h 30m",
        "1w11h32m21s",
        "-60h 2s",
        "11sec",
        "-12h30min",
        "2021-07-08T17:47:25.558027+01:00",
    ];
    for s in valid_times {
        assert!(validate_time(s).is_ok());
    }
    let invalid_times = [
        "202-12-12T18:39Z",
        "1h -30m",
        "-60h 2foo",
        "2022-12-12T18:39:09",
    ];
    assert!(invalid_times.iter().all(|s| validate_time(s).is_err()))
}

#[test]
fn validate_time_values() {
    assert_eq!(validate_time("11s"), Ok("11s".to_string()));
    assert_eq!(
        validate_time("soon"),
        Err("soon is not a recognised time format".to_string())
    );
}

#[test]
fn file_format_from_extension() {
    assert_eq!(FileFormat::from_path("reads.fq"), Some(FileFormat::Fastx));
    assert_eq!(FileFormat::from_path("reads.fasta"), Some(FileFormat::Fastx));
    assert_eq!(FileFormat::from_path("dir/reads.fastq.gz"), Some(FileFormat::Fastx));
    assert_eq!(FileFormat::from_path("aln.bam"), Some(FileFormat::Alignment));
    assert_eq!(FileFormat::from_path("aln.sam.gz"), Some(FileFormat::Alignment));
    assert_eq!(FileFormat::from_path("reads.txt"), None);
    assert_eq!(FileFormat::from_path("reads.gz"), None);
    assert_eq!(FileFormat::from_path("reads"), None);
}

#[test]
fn fastx_keeps_its_path() {
    let f = Fastx::from_path("input.fa.gz");
    assert_eq!(f.path(), "input.fa.gz");
    assert_eq!(f, Fastx::from_path("input.fa.gz"));
}
