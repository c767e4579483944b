use in_one_weekend::params::{get_thread_parameters, parse_usize, ArgError, ThreadParameters};

fn args(a: &[&str]) -> Vec<String> {
    a.iter().map(|s| s.to_string()).collect()
}

fn params(num_threads: usize, lines_per_thread: usize) -> ThreadParameters {
    ThreadParameters { num_threads, lines_per_thread }
}

#[test]
fn no_arguments_give_one_thread_one_line() {
    assert_eq!(get_thread_parameters(&args(&[])), Ok(params(1, 1)));
}

#[test]
fn thread_count_alone_takes_four_lines() {
    assert_eq!(get_thread_parameters(&args(&["8"])), Ok(params(8, 4)));
}

#[test]
fn thread_count_and_lines() {
    assert_eq!(get_thread_parameters(&args(&["8", "2"])), Ok(params(8, 2)));
}

#[test]
fn further_arguments_are_ignored() {
    assert_eq!(get_thread_parameters(&args(&["2", "3", "9"])), Ok(params(2, 3)));
}

#[test]
fn flags_are_skipped() {
    assert_eq!(
        get_thread_parameters(&args(&["--release", "3", "--quiet", "5"])),
        Ok(params(3, 5))
    );
    assert_eq!(get_thread_parameters(&args(&["--", "--x"])), Ok(params(1, 1)));
}

#[test]
fn single_dash_is_not_a_flag() {
    assert_eq!(
        get_thread_parameters(&args(&["-", "3"])),
        Err(ArgError::InvalidThreadCount)
    );
    assert_eq!(
        get_thread_parameters(&args(&["-v"])),
        Err(ArgError::InvalidThreadCount)
    );
}

#[test]
fn bad_thread_count_is_reported() {
    assert_eq!(
        get_thread_parameters(&args(&["four"])),
        Err(ArgError::InvalidThreadCount)
    );
    assert_eq!(
        get_thread_parameters(&args(&["x", "2"])),
        Err(ArgError::InvalidThreadCount)
    );
}

#[test]
fn bad_line_count_is_reported() {
    assert_eq!(
        get_thread_parameters(&args(&["2", "-1"])),
        Err(ArgError::InvalidLinesPerThread)
    );
    assert_eq!(
        get_thread_parameters(&args(&["2", ""])),
        Err(ArgError::InvalidLinesPerThread)
    );
}

#[test]
fn zero_is_read_as_given() {
    assert_eq!(get_thread_parameters(&args(&["0", "0"])), Ok(params(0, 0)));
}

#[test]
fn parse_accepts_digits_and_plus() {
    assert_eq!(parse_usize("42"), Some(42));
    assert_eq!(parse_usize("+42"), Some(42));
    assert_eq!(parse_usize("007"), Some(7));
    assert_eq!(parse_usize("0"), Some(0));
}

#[test]
fn parse_rejects_other_text() {
    assert_eq!(parse_usize(""), None);
    assert_eq!(parse_usize("+"), None);
    assert_eq!(parse_usize("-3"), None);
    assert_eq!(parse_usize(" 1"), None);
    assert_eq!(parse_usize("1 "), None);
    assert_eq!(parse_usize("++1"), None);
    assert_eq!(parse_usize("1.5"), None);
    assert_eq!(parse_usize("٣"), None);
}

#[test]
fn parse_stops_at_the_largest_usize() {
    let max = usize::MAX.to_string();
    assert_eq!(parse_usize(&max), Some(usize::MAX));
    let over = format!("{}0", max);
    assert_eq!(parse_usize(&over), None);
    let just_over = (usize::MAX as u128 + 1).to_string();
    assert_eq!(parse_usize(&just_over), None);
}

#[test]
fn parse_agrees_with_std() {
    let cases = [
        "", "0", "+0", "-0", "12", "+12", "1_000", "99999", "0x10", "+-1", "1e3", "00000000000000000000001",
    ];
    for c in cases {
        assert_eq!(parse_usize(c), c.parse::<usize>().ok(), "text {:?}", c);
    }
}
