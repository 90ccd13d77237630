use hzrd::re::compile_flag_pattern;
use hzrd::re::flags_from_output;
use hzrd::re::pattern_is_valid;

#[test]
fn extraction_finds_each_flag_once_in_order() {
    // The competition's usual pattern: 31 digits or capitals, then '='.
    let re = compile_flag_pattern(b"[0-9A-Z]{31}=").expect("the pattern compiles");
    let first = "A123456789B123456789C123456789D=";
    let second = "E123456789F123456789G123456789H=";
    let output = format!("noise {first} middle {second} tail");
    let found = flags_from_output(&re, output.as_bytes());
    assert_eq!(
        found,
        vec![first.as_bytes().to_vec(), second.as_bytes().to_vec()]
    );
}

#[test]
fn extraction_ignores_near_misses() {
    let re = compile_flag_pattern(b"[0-9A-Z]{31}=").unwrap();
    // Thirty characters, lower case, or no trailing '=': no match.
    let output = "A123456789B123456789C12345678= a123456789b123456789c123456789d= A123456789B123456789C123456789D";
    let found = flags_from_output(&re, output.as_bytes());
    assert!(found.is_empty());
}

#[test]
fn matches_do_not_overlap() {
    let re = compile_flag_pattern(b"aa").unwrap();
    let found = flags_from_output(&re, b"aaaa");
    assert_eq!(found, vec![b"aa".to_vec(), b"aa".to_vec()]);
}

#[test]
fn invalid_patterns_are_rejected() {
    assert!(!pattern_is_valid(b"["));
    assert!(!pattern_is_valid(b"(unclosed"));
    assert!(pattern_is_valid(b"[0-9A-Z]{31}="));
    assert!(compile_flag_pattern(b"[").is_none());
}
