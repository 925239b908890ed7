use cypheria::commands::generator::{generate_password, password_gen_result, sample_password, strength_label, PasswordGenResult};
use cypheria::error::CypheriaError;
use cypheria::models::entry::GenOptions;

fn opts(length: usize, upper: bool, lower: bool, numbers: bool, symbols: bool) -> GenOptions {
    GenOptions { length, upper, lower, numbers, symbols }
}

/// The strength estimate, as the application computes it.
fn generate(options: GenOptions) -> Result<PasswordGenResult, CypheriaError> {
    let length = options.length;
    let g = generate_password(options)?;
    let bits = (length as f64) * (g.charset_size as f64).log2();
    Ok(password_gen_result(g, bits as u32))
}

#[test]
fn test_basic_generation() {
    let result = generate(opts(16, true, true, true, false)).unwrap();
    assert_eq!(result.password.len(), 16);
    assert!(result.entropy_bits > 0);
}

#[test]
fn test_entropy_calculation() {
    let result = generate(opts(16, false, true, false, false)).unwrap();
    assert!(result.entropy_bits >= 70, "Expected ~75 bits, got {}", result.entropy_bits);
    assert_eq!(result.strength, "Strong");
}

#[test]
fn test_length_bounds_rejected() {
    assert!(generate(opts(3, true, true, true, false)).is_err());
    assert!(generate(opts(257, true, true, true, false)).is_err());
}

#[test]
fn test_empty_charset_rejected() {
    assert!(generate(opts(16, false, false, false, false)).is_err());
}

#[test]
fn test_charset_respected() {
    let result = generate(opts(100, false, true, false, false)).unwrap();
    assert!(result.password.chars().all(|c| c.is_ascii_lowercase()), "Only lowercase expected");
}

#[test]
fn test_passwords_are_random() {
    let r1 = generate(opts(24, true, true, true, true)).unwrap();
    let r2 = generate(opts(24, true, true, true, true)).unwrap();
    assert_ne!(r1.password, r2.password, "Two generated passwords should differ");
}

// ── Further cases ───────────────────────────────────────────────────────────

#[test]
fn error_messages_of_the_generator() {
    match generate_password(opts(3, true, false, false, false)) {
        Err(CypheriaError::InvalidInput(m)) => assert_eq!(m, "Password length must be between 4 and 256"),
        _ => panic!("expected InvalidInput"),
    }
    match generate_password(opts(4, false, false, false, false)) {
        Err(CypheriaError::InvalidInput(m)) => assert_eq!(m, "At least one character class must be selected"),
        _ => panic!("expected InvalidInput"),
    }
}

#[test]
fn length_bounds_are_inclusive() {
    assert_eq!(generate_password(opts(4, true, false, false, false)).unwrap().password.len(), 4);
    assert_eq!(generate_password(opts(256, true, false, false, false)).unwrap().password.len(), 256);
}

#[test]
fn charset_sizes() {
    assert_eq!(generate_password(opts(8, true, false, false, false)).unwrap().charset_size, 26);
    assert_eq!(generate_password(opts(8, false, false, true, false)).unwrap().charset_size, 10);
    assert_eq!(generate_password(opts(8, true, true, true, false)).unwrap().charset_size, 62);
    assert_eq!(generate_password(opts(8, true, true, true, true)).unwrap().charset_size, 88);
}

#[test]
fn digits_only_and_symbols_only() {
    let d = generate_password(opts(64, false, false, true, false)).unwrap();
    assert!(d.password.chars().all(|c| c.is_ascii_digit()));
    let s = generate_password(opts(64, false, false, false, true)).unwrap();
    assert!(s.password.chars().all(|c| "!@#$%^&*()_+-=[]{}|;:,.<>?".contains(c)));
}

#[test]
fn strength_labels_at_their_bounds() {
    assert_eq!(strength_label(0), "Weak");
    assert_eq!(strength_label(35), "Weak");
    assert_eq!(strength_label(36), "Moderate");
    assert_eq!(strength_label(59), "Moderate");
    assert_eq!(strength_label(60), "Strong");
    assert_eq!(strength_label(79), "Strong");
    assert_eq!(strength_label(80), "Very Strong");
}

#[test]
fn digits_come_out_evenly() {
    let mut counts = [0usize; 10];
    for _ in 0..20 {
        let p = generate_password(opts(256, false, false, true, false)).unwrap();
        for c in p.password.chars() {
            counts[c.to_digit(10).unwrap() as usize] += 1;
        }
    }
    for n in counts {
        assert!((350..=680).contains(&n), "digit count {} is far from 512", n);
    }
}

#[test]
fn sampling_from_given_bytes() {
    let abc = ['a', 'b', 'c'];
    assert_eq!(sample_password(&abc, 4, &[0, 1, 2, 255, 4]), Some("abcb".to_string()));
    assert_eq!(sample_password(&abc, 5, &[0, 1, 2, 255, 4]), None);
    assert_eq!(sample_password(&abc, 2, &[254, 3, 7, 9]), Some("ca".to_string()));
    let digits: Vec<char> = "0123456789".chars().collect();
    assert_eq!(sample_password(&digits, 1, &[250, 255, 249]), Some("9".to_string()));
    assert_eq!(sample_password(&digits, 0, &[]), Some(String::new()));
}

#[test]
fn sixteen_lowercase_letters() {
    let r = generate(opts(16, false, true, false, false)).unwrap();
    assert_eq!(r.charset_size, 26);
    assert_eq!(r.entropy_bits, 75);
    assert_eq!(r.strength, "Strong");
    assert_eq!(r.password.len(), 16);
    assert!(r.password.chars().all(|c| c.is_ascii_lowercase()));
}
