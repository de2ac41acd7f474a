use bindgen_cuda::capability::{
    check_compute_cap, device_query_cap_of_lines, gpu_code_of_fields, normalize_compute_cap,
    parse_device_query, parse_gpu_codes, resolve_compute_cap, resolve_thread_count, same_text,
};
use bindgen_cuda::text::{parse_usize, push_decimal, remove_dots, replace_dots};
use bindgen_cuda::CapabilityError;

fn texts(v: &[&str]) -> Vec<String> {
    v.iter().map(|s| s.to_string()).collect()
}

#[test]
fn parse_usize_reads_decimal_numbers() {
    assert_eq!(parse_usize("86"), Some(86));
    assert_eq!(parse_usize("+7"), Some(7));
    assert_eq!(parse_usize("0"), Some(0));
    assert_eq!(parse_usize(&usize::MAX.to_string()), Some(usize::MAX));
}

#[test]
fn parse_usize_rejects_other_text() {
    assert_eq!(parse_usize(""), None);
    assert_eq!(parse_usize("+"), None);
    assert_eq!(parse_usize("8a"), None);
    assert_eq!(parse_usize("-1"), None);
    assert_eq!(parse_usize(" 8"), None);
    let too_big = format!("{}0", usize::MAX);
    assert_eq!(parse_usize(&too_big), None);
}

#[test]
fn dots_are_removed_or_replaced() {
    assert_eq!(remove_dots("8.6"), "86");
    assert_eq!(remove_dots("1.2.3"), "123");
    assert_eq!(replace_dots("flash.attention"), "flash_attention");
    assert_eq!(replace_dots(""), "");
}

#[test]
fn decimal_text_is_written() {
    let mut s = String::from("sm_");
    push_decimal(&mut s, 86);
    assert_eq!(s, "sm_86");
    let mut z = String::new();
    push_decimal(&mut z, 0);
    assert_eq!(z, "0");
    let mut big = String::new();
    push_decimal(&mut big, 1200);
    assert_eq!(big, "1200");
}

#[test]
fn dotted_and_plain_identifiers_agree() {
    assert_eq!(normalize_compute_cap("8.6"), Ok(86));
    assert_eq!(normalize_compute_cap("86"), Ok(86));
    assert_eq!(normalize_compute_cap("8.6"), normalize_compute_cap("86"));
}

#[test]
fn unparsable_identifier_is_rejected() {
    assert_eq!(normalize_compute_cap("sm86"), Err(CapabilityError::Unparsable));
    assert_eq!(normalize_compute_cap("."), Err(CapabilityError::Unparsable));
}

#[test]
fn same_text_compares_characters() {
    assert!(same_text("sm", "sm"));
    assert!(!same_text("sm", "sm_"));
    assert!(!same_text("sx", "sm"));
}

#[test]
fn device_query_answer_is_read() {
    assert_eq!(parse_device_query("compute_cap\n8.6\n"), Ok(86));
    assert_eq!(parse_device_query("compute_cap\r\n9.0\r\n"), Ok(90));
    assert_eq!(device_query_cap_of_lines(&texts(&["compute_cap", "7.5"])), Ok(75));
}

#[test]
fn malformed_device_query_is_rejected() {
    assert_eq!(parse_device_query("compute_cap\n"), Err(CapabilityError::DeviceQueryFormat));
    assert_eq!(parse_device_query("name\n8.6\n"), Err(CapabilityError::DeviceQueryFormat));
    assert_eq!(parse_device_query(""), Err(CapabilityError::DeviceQueryFormat));
    assert_eq!(parse_device_query("compute_cap\nN/A\n"), Err(CapabilityError::Unparsable));
}

#[test]
fn gpu_code_listing_is_parsed() {
    let listing = "sm_50\nsm_86\ncompute_90\nsm_90a\nlto_sm_89\nsm_90\n";
    assert_eq!(parse_gpu_codes(listing), vec![50, 86, 90]);
    assert_eq!(parse_gpu_codes(""), Vec::<usize>::new());
}

#[test]
fn gpu_code_fields_need_an_sm_field() {
    assert_eq!(gpu_code_of_fields(&texts(&["sm", "80"])), Some(80));
    assert_eq!(gpu_code_of_fields(&texts(&["sm"])), None);
    assert_eq!(gpu_code_of_fields(&texts(&["compute", "80"])), None);
    assert_eq!(gpu_code_of_fields(&texts(&["x", "70", "sm"])), Some(70));
}

#[test]
fn compute_cap_is_checked_against_the_listing() {
    assert_eq!(check_compute_cap(86, &vec![50, 86, 90]), Ok(86));
    assert_eq!(check_compute_cap(89, &vec![50, 86, 90]), Err(CapabilityError::Unsupported { cap: 89 }));
    assert_eq!(check_compute_cap(86, &vec![]), Err(CapabilityError::NoGpuCodes));
}

#[test]
fn resolution_prefers_the_request() {
    let listing = "sm_80\nsm_86\n";
    assert_eq!(resolve_compute_cap(Some("8.6"), Some("compute_cap\n8.0\n"), listing), Ok(86));
    assert_eq!(resolve_compute_cap(None, Some("compute_cap\n8.0\n"), listing), Ok(80));
    assert_eq!(resolve_compute_cap(None, None, listing), Err(CapabilityError::NoDeviceQuery));
    assert_eq!(resolve_compute_cap(Some("9.0"), None, listing), Err(CapabilityError::Unsupported { cap: 90 }));
}

#[test]
fn resolution_is_repeatable() {
    let listing = "sm_75\nsm_86\n";
    let first = resolve_compute_cap(None, Some("compute_cap\n8.6\n"), listing);
    let second = resolve_compute_cap(None, Some("compute_cap\n8.6\n"), listing);
    assert_eq!(first, Ok(86));
    assert_eq!(first, second);
}

#[test]
fn thread_count_is_resolved() {
    assert_eq!(resolve_thread_count(Some("4")), Some(4));
    assert_eq!(resolve_thread_count(Some("four")), None);
    let n = resolve_thread_count(None).unwrap();
    assert!(n >= 1);
}
