use hzrd::points::extract_tokens;
use hzrd::points::line_points_milli_exec;
use hzrd::points::token_milli_exec;
use hzrd::text::bytes_eq;
use hzrd::text::concat_bytes;
use hzrd::text::contains_word_ci;
use hzrd::text::to_lower_bytes;
use hzrd::text::u64_to_dec;

#[test]
fn tokens_are_maximal_runs() {
    let toks = extract_tokens(b"flag accepted, earned 5 points");
    assert_eq!(toks, vec![b",".to_vec(), b"5".to_vec()]);
    let toks = extract_tokens(b"1.5 and 2,3 then .7.");
    assert_eq!(
        toks,
        vec![b"1.5".to_vec(), b"2,3".to_vec(), b".7.".to_vec()]
    );
    let toks = extract_tokens(b"no digits here");
    assert!(toks.is_empty());
}

#[test]
fn token_values_are_exact_thousandths() {
    assert_eq!(token_milli_exec(b"3"), 3000);
    assert_eq!(token_milli_exec(b"3.5"), 3500);
    assert_eq!(token_milli_exec(b"3.14159"), 3141);
    assert_eq!(token_milli_exec(b".5"), 500);
    assert_eq!(token_milli_exec(b"5."), 5000);
    // Tokens that do not read as a number count zero.
    assert_eq!(token_milli_exec(b","), 0);
    assert_eq!(token_milli_exec(b"1,5"), 0);
    assert_eq!(token_milli_exec(b"1.2.3"), 0);
    assert_eq!(token_milli_exec(b"."), 0);
}

#[test]
fn line_points_sum_every_token() {
    assert_eq!(line_points_milli_exec(b"flag accepted, earned 3 points"), 3000);
    assert_eq!(line_points_milli_exec(b"accepted 2 flags earned 5.5 points"), 7500);
    assert_eq!(line_points_milli_exec(b"nothing numeric"), 0);
}

#[test]
fn containment_ignores_case_of_the_line() {
    assert!(contains_word_ci(b"WELCOME aboard", b"welcome"));
    assert!(contains_word_ci(b"Flag Accepted!", b"accepted"));
    assert!(!contains_word_ci(b"rejected", b"accepted"));
    assert!(contains_word_ci(b"x", b""));
    assert!(!contains_word_ci(b"", b"x"));
}

#[test]
fn byte_helpers_behave() {
    assert!(bytes_eq(b"abc", b"abc"));
    assert!(!bytes_eq(b"abc", b"abd"));
    assert!(!bytes_eq(b"abc", b"ab"));
    assert_eq!(concat_bytes(b"ab", b"cd"), b"abcd".to_vec());
    assert_eq!(to_lower_bytes(b"MiXeD 123"), b"mixed 123".to_vec());
    assert_eq!(u64_to_dec(0), b"0".to_vec());
    assert_eq!(u64_to_dec(907), b"907".to_vec());
    assert_eq!(u64_to_dec(18446744073709551615), b"18446744073709551615".to_vec());
}
