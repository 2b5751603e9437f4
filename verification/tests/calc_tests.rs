#[test]
fn test_add() {
    assert_eq!(jenna_rust::calc::add(2, 3), 5);
}

#[test]
fn test_subtract() {
    assert_eq!(jenna_rust::calc::subtract(5, 2), 3);
}

#[test]
fn test_multiply() {
    assert_eq!(jenna_rust::calc::multiply(3, 4), 12);
}

#[test]
fn test_divide() {
    assert_eq!(jenna_rust::calc::divide(10, 2), 5);
    assert_eq!(jenna_rust::calc::divide(5, 0), 0); // Test division by zero
}

#[test]
fn test_fibonacci() {
    assert_eq!(jenna_rust::calc::fibonacci(0), 0);
    assert_eq!(jenna_rust::calc::fibonacci(1), 1);
    assert_eq!(jenna_rust::calc::fibonacci(2), 1);
    assert_eq!(jenna_rust::calc::fibonacci(3), 2);
    assert_eq!(jenna_rust::calc::fibonacci(4), 3);
    assert_eq!(jenna_rust::calc::fibonacci(5), 5);
    assert_eq!(jenna_rust::calc::fibonacci(6), 8);
    assert_eq!(jenna_rust::calc::fibonacci(10), 55);
}

#[test]
fn test_divide_rounds_toward_zero() {
    assert_eq!(jenna_rust::calc::divide(-7, 2), -3);
    assert_eq!(jenna_rust::calc::divide(7, -2), -3);
    assert_eq!(jenna_rust::calc::divide(-7, -2), 3);
}

#[test]
fn test_process_string_reverses_behind_prefix() {
    let input: Vec<char> = "abc".chars().collect();
    let out = jenna_rust::calc::process_string(&input);
    let expected: Vec<char> = "Processed: cba".chars().collect();
    assert_eq!(out, expected);
}

#[test]
fn test_process_string_empty() {
    let input: Vec<char> = Vec::new();
    let out = jenna_rust::calc::process_string(&input);
    let expected: Vec<char> = "Processed: ".chars().collect();
    assert_eq!(out, expected);
}
