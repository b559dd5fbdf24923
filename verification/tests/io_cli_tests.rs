use toggle::cli::{parse_args, Args};
use toggle::io::{detect_protected_lines, has_utf8_bom};
use toggle::VERSION;

fn assert_default(args: &Args) {
    assert!(args.line_ranges.is_empty());
    assert_eq!(args.force, None);
    assert_eq!(args.temp_suffix, None);
    assert_eq!(args.encoding, None);
    assert!(!args.verbose);
    assert!(!args.json);
    assert!(!args.strict_ext);
    assert!(!args.no_dereference);
    assert_eq!(args.eol, "preserve");
    assert!(!args.posix_exit);
    assert!(args.files.is_empty());
}

#[test]
fn default_args() {
    assert_default(&Args::default());
}

#[test]
fn parse_args_gives_the_defaults() {
    assert_default(&parse_args(&[]).unwrap());
    let given = vec!["-l".to_string(), "1:2".to_string(), "file.py".to_string()];
    assert_default(&parse_args(&given).unwrap());
}

#[test]
fn bom_is_three_bytes() {
    assert!(has_utf8_bom(&[0xEF, 0xBB, 0xBF]));
    assert!(has_utf8_bom(&[0xEF, 0xBB, 0xBF, b'a']));
    assert!(!has_utf8_bom(&[]));
    assert!(!has_utf8_bom(&[0xEF]));
    assert!(!has_utf8_bom(&[0xEF, 0xBB]));
    assert!(!has_utf8_bom(&[0xEF, 0xBB, 0xBE]));
    assert!(!has_utf8_bom(&[0xBB, 0xEF, 0xBF]));
    assert!(!has_utf8_bom(&[b'a', 0xEF, 0xBB, 0xBF]));
}

#[test]
fn no_line_is_protected() {
    assert_eq!(detect_protected_lines(""), Vec::<usize>::new());
    assert_eq!(detect_protected_lines("#!/bin/sh\n# -*- coding: utf-8 -*-\n"), Vec::<usize>::new());
}

#[test]
fn version_is_that_of_the_package() {
    assert_eq!(VERSION, "0.1.0");
}
