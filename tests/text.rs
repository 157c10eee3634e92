use ntfs_get::batch::{input_paths, job_target, strip_carriage_returns};
use ntfs_get::extract::{
    destination_path, listing_line, output_file_name, parse_file_arg, plan_extraction, split_stream, FileArg,
    FileArgError,
};
use ntfs_get::path::{is_parent, split_at_char};
use ntfs_get::record::{parse_radix, parse_record_number};

#[test]
fn named_stream_goes_to_underscored_file() {
    let plan = plan_extraction("name:alt", "out");
    assert_eq!(plan.file_name, "name");
    assert_eq!(plan.stream_name, "alt");
    assert_eq!(plan.output_file_name, "name_alt");
    assert_eq!(plan.destination, "out\\name_alt");
}

#[test]
fn default_stream_keeps_the_name() {
    let plan = plan_extraction("notes.txt", ".");
    assert_eq!(plan.file_name, "notes.txt");
    assert_eq!(plan.stream_name, "");
    assert_eq!(plan.output_file_name, "notes.txt");
    assert_eq!(plan.destination, ".\\notes.txt");
}

#[test]
fn stream_split_at_first_colon() {
    let (f, s) = split_stream("a:b:c");
    assert_eq!(f, "a");
    assert_eq!(s, "b:c");
    assert_eq!(output_file_name("a", "b:c"), "a_b:c");
    assert_eq!(destination_path("d", "x"), "d\\x");
}

#[test]
fn file_argument_forms() {
    assert!(matches!(parse_file_arg(""), Err(FileArgError::MissingArgument)));
    assert!(matches!(parse_file_arg("/255"), Ok(FileArg::Record(255))));
    assert!(matches!(parse_file_arg("/0xFF"), Ok(FileArg::Record(255))));
    assert!(matches!(parse_file_arg("/0x"), Err(FileArgError::RecordNumberParse)));
    assert!(matches!(parse_file_arg("/12a"), Err(FileArgError::RecordNumberParse)));
    match parse_file_arg("boot.ini") {
        Ok(FileArg::Name(n)) => assert_eq!(n, "boot.ini"),
        _ => panic!("expected a name"),
    }
}

#[test]
fn record_number_limits() {
    assert_eq!(parse_record_number("18446744073709551615"), Some(u64::MAX));
    assert_eq!(parse_record_number("18446744073709551616"), None);
    assert_eq!(parse_record_number("0xffffffffffffffff"), Some(u64::MAX));
    assert_eq!(parse_record_number("0x10000000000000000"), None);
    assert_eq!(parse_record_number("+7"), Some(7));
    assert_eq!(parse_record_number(""), None);
    assert_eq!(parse_record_number("+"), None);
    assert_eq!(parse_record_number("-1"), None);
    assert_eq!(parse_radix("ff", 10), None);
    assert_eq!(parse_radix("aF", 16), Some(175));
    assert_eq!(parse_radix("0042", 10), Some(42));
}

#[test]
fn splitting_keeps_empty_pieces() {
    assert_eq!(split_at_char("a\\b\\c", '\\'), vec!["a", "b", "c"]);
    assert_eq!(split_at_char("", '\\'), vec![""]);
    assert_eq!(split_at_char("\\a\\", '\\'), vec!["", "a", ""]);
    assert!(is_parent(".."));
    assert!(!is_parent("..."));
    assert!(!is_parent("."));
}

#[test]
fn job_target_is_last_component() {
    assert_eq!(job_target("Windows\\System32\\config\\SAM"), "SAM");
    assert_eq!(job_target("SAM"), "SAM");
    assert_eq!(job_target("a\\"), "");
}

#[test]
fn input_lines_lose_carriage_returns() {
    assert_eq!(input_paths("a\\b\r\nc\r\n"), vec!["a\\b", "c", ""]);
    assert_eq!(strip_carriage_returns("x\ry\r"), "xy");
}

#[test]
fn listing_marks_directories() {
    assert_eq!(listing_line(true, "Users"), "<DIR>  Users");
    assert_eq!(listing_line(false, "boot.ini"), "       boot.ini");
}
