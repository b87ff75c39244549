use rshell::args::{process_args_inner, Error};

#[test]
fn simple() {
    let txt = "foo";
    let exp: &[&str] = &["foo"];
    let v = process_args_inner(txt).expect("able to parse");
    assert_eq!(1, v.len());
    for (exp, got) in exp.iter().zip(&v[0]) {
        assert_eq!(*exp, got.as_str());
    }
}

#[test]
fn simple_multiple() {
    let txt = "foo XX";
    let exp: &[&str] = &["foo", "XX"];
    let v = process_args_inner(txt).expect("able to parse");
    assert_eq!(1, v.len());
    for (exp, got) in exp.iter().zip(&v[0]) {
        assert_eq!(*exp, got.as_str());
    }
}

#[test]
fn single_single_quote() {
    let txt = "'XX'";
    let exp: &[&str] = &["XX"];
    let v = process_args_inner(txt).expect("able to parse");
    assert_eq!(1, v.len());
    for (exp, got) in exp.iter().zip(&v[0]) {
        assert_eq!(*exp, got.as_str());
    }
}

#[test]
fn multiple_single_quote() {
    let txt = "'AA    ''BB' 'CC'";
    let exp: &[&str] = &["AA    BB", "CC"];
    let v = process_args_inner(txt).expect("able to parse");
    assert_eq!(1, v.len());
    for (exp, got) in exp.iter().zip(&v[0]) {
        assert_eq!(*exp, got.as_str());
    }
}

#[test]
fn multiple_single_quote_mixed() {
    let txt = r#"echo 'example     script' 'shell''test' hello''world"#;
    let exp: &[&str] = &["echo", "example     script", "shelltest", "helloworld"];
    let v = process_args_inner(txt).expect("able to parse");
    assert_eq!(1, v.len());
    for (exp, got) in exp.iter().zip(&v[0]) {
        assert_eq!(*exp, got.as_str());
    }
}

#[test]
fn single_quote_with_double() {
    let txt = "'\"AA\"'";
    let exp: &[&str] = &["\"AA\""];
    let v = process_args_inner(txt).expect("able to parse");
    assert_eq!(1, v.len());
    for (exp, got) in exp.iter().zip(&v[0]) {
        assert_eq!(*exp, got.as_str());
    }
}

#[test]
fn double_quote() {
    let txt = "\"XX\"";
    let exp: &[&str] = &["XX"];
    let v = process_args_inner(txt).expect("able to parse");
    assert_eq!(1, v.len());
    for (exp, got) in exp.iter().zip(&v[0]) {
        assert_eq!(*exp, got.as_str());
    }
}

#[test]
fn multiple_double_quote() {
    let txt = "\"AA\"\"BB\" \"CC\"";
    let exp: &[&str] = &["AABB", "CC"];
    let v = process_args_inner(txt).expect("able to parse");
    assert_eq!(1, v.len());
    for (exp, got) in exp.iter().zip(&v[0]) {
        assert_eq!(*exp, got.as_str());
    }
}

#[test]
fn double_quote_with_single() {
    let txt = "\"'AA'\"";
    let exp: &[&str] = &["'AA'"];
    let v = process_args_inner(txt).expect("able to parse");
    assert_eq!(1, v.len());
    for (exp, got) in exp.iter().zip(&v[0]) {
        assert_eq!(*exp, got.as_str());
    }
}

#[test]
fn double_backslash() {
    let txt = "/tmp/file\\\\name";
    let exp: &[&str] = &["/tmp/file\\name"];
    let v = process_args_inner(txt).expect("able to parse");
    assert_eq!(1, v.len());
    for (exp, got) in exp.iter().zip(&v[0]) {
        assert_eq!(*exp, got.as_str());
    }
}

#[test]
fn escaped_string_backslash() {
    let txt = "world\\ \\ \\ \\ \\ \\ script";
    let exp: &[&str] = &["world      script"];
    let v = process_args_inner(txt).expect("able to parse");
    assert_eq!(1, v.len());
    for (exp, got) in exp.iter().zip(&v[0]) {
        assert_eq!(*exp, got.as_str());
    }
}

#[test]
fn escaped_string_backslash_beginning() {
    let txt = "\\ world";
    let exp: &[&str] = &[" world"];
    let v = process_args_inner(txt).expect("able to parse");
    assert_eq!(1, v.len());
    for (exp, got) in exp.iter().zip(&v[0]) {
        assert_eq!(*exp, got.as_str());
    }
}

#[test]
fn false_escaped_backslasch() {
    let txt = "\"before\\   after\"";
    let exp: &[&str] = &["before\\   after"];
    let v = process_args_inner(txt).expect("able to parse");
    assert_eq!(1, v.len());
    for (exp, got) in exp.iter().zip(&v[0]) {
        assert_eq!(*exp, got.as_str());
    }
}

#[test]
fn escaped_before_text() {
    let txt = r#"\'\"world hello\"\'"#;
    let exp: &[&str] = &[r#"'"world"#, r#"hello"'"#];
    let v = process_args_inner(txt).expect("able to parse");
    assert_eq!(1, v.len());
    for (exp, got) in exp.iter().zip(&v[0]) {
        assert_eq!(*exp, got.as_str());
    }
}

#[test]
fn backslasch_within_double_quotes() {
    let txt = r#""shell\"insidequotes"example\""#;
    let exp: &[&str] = &[r#"shell"insidequotesexample""#];
    let v = process_args_inner(txt).expect("able to parse");
    assert_eq!(1, v.len());
    for (exp, got) in exp.iter().zip(&v[0]) {
        assert_eq!(*exp, got.as_str());
    }
}

#[test]
fn simple_constalation() {
    let txt = r#"'exe  with  space'"#;
    let exp: &[&str] = &[r#"exe  with  space"#];
    let v = process_args_inner(txt).expect("able to parse");
    assert_eq!(1, v.len());
    for (exp, got) in exp.iter().zip(&v[0]) {
        assert_eq!(*exp, got.as_str());
    }
}

#[test]
fn simple_escape() {
    let txt = r#""/tmp/baz/f\1" "#;
    let exp: &[&str] = &["/tmp/baz/f\\1"];
    let v = process_args_inner(txt).expect("able to parse");
    assert_eq!(1, v.len());
    for (exp, got) in exp.iter().zip(&v[0]) {
        assert_eq!(*exp, got.as_str());
    }
}

#[test]
fn multiple_simple_escape() {
    let txt = r#"cat "/tmp/baz/f\n37" "/tmp/baz/f\1" "/tmp/baz/f'\'31""#;
    let exp: &[&str] = &["cat", "/tmp/baz/f\\n37", "/tmp/baz/f\\1", "/tmp/baz/f'\\'31"];
    let v = process_args_inner(txt).expect("able to parse");
    assert_eq!(1, v.len());
    for (exp, got) in exp.iter().zip(&v[0]) {
        assert_eq!(*exp, got.as_str());
    }
}

#[test]
fn simple_pipe_single_quote() {
    let txt = r#"'exe with |'"#;
    let exp: &[&str] = &[r#"exe with |"#];
    let v = process_args_inner(txt).expect("able to parse");
    assert_eq!(1, v.len());
    for (exp, got) in exp.iter().zip(&v[0]) {
        assert_eq!(*exp, got.as_str());
    }
}

#[test]
fn simple_pipe_double_quote() {
    let txt = r#""exe with |""#;
    let exp: &[&str] = &[r#"exe with |"#];
    let v = process_args_inner(txt).expect("able to parse");
    assert_eq!(1, v.len());
    for (exp, got) in exp.iter().zip(&v[0]) {
        assert_eq!(*exp, got.as_str());
    }
}

#[test]
fn pipe_with_space() {
    let txt = r#"exe | exe2"#;
    let exp: &[&[&str]] = &[&["exe"], &["exe2"]];
    let v = process_args_inner(txt).expect("able to parse");
    assert_eq!(2, v.len());
    for (block, v) in exp.iter().zip(v) {
        for (exp, got) in block.iter().zip(v) {
            assert_eq!(*exp, got.as_str());
        }
    }
}

#[test]
fn pipe_with_space_left() {
    let txt = r#"exe| exe2"#;
    let exp: &[&[&str]] = &[&["exe"], &["exe2"]];
    let v = process_args_inner(txt).expect("able to parse");
    assert_eq!(2, v.len());
    for (block, v) in exp.iter().zip(v) {
        for (exp, got) in block.iter().zip(v) {
            assert_eq!(*exp, got.as_str());
        }
    }
}

#[test]
fn pipe_beween_commands() {
    let txt = r#"exe|exe2"#;
    let exp: &[&[&str]] = &[&["exe"], &["exe2"]];
    let v = process_args_inner(txt).expect("able to parse");
    assert_eq!(2, v.len());
    for (block, v) in exp.iter().zip(v) {
        for (exp, got) in block.iter().zip(v) {
            assert_eq!(*exp, got.as_str());
        }
    }
}

#[test]
fn pipe_beween_commands_with_args() {
    let txt = r#"exe foo |exe2"#;
    let exp: &[&[&str]] = &[&["exe", "foo"], &["exe2"]];
    let v = process_args_inner(txt).expect("able to parse");
    assert_eq!(2, v.len());
    for (block, v) in exp.iter().zip(v) {
        for (exp, got) in block.iter().zip(v) {
            assert_eq!(*exp, got.as_str());
        }
    }
}

#[test]
fn pipe_at_beginning() {
    let txt = r#"|exe"#;
    let v = process_args_inner(txt);
    assert_eq!(Err(Error::PipeAtBeginning), v);
}

#[test]
fn pipe_at_end() {
    let txt = r#"exe|"#;
    let v = process_args_inner(txt);
    assert_eq!(Err(Error::PipeAtEnd), v);
}

#[test]
fn pipe_following_pipe() {
    let v = process_args_inner("exe||exe2");
    assert_eq!(Err(Error::PipeFollowingPipe), v);
}

#[test]
fn missing_end_single_quote() {
    let v = process_args_inner("'abc");
    assert_eq!(Err(Error::MissingEndSingleQuote), v);
}

#[test]
fn missing_end_double_quote() {
    let v = process_args_inner("\"abc");
    assert_eq!(Err(Error::MissingEndDoubleQuote), v);
}

#[test]
fn unescape_plain_token_unchanged() {
    let v = rshell::args::post_process_args(vec!["plain-token".to_string()]).unwrap();
    assert_eq!(vec!["plain-token".to_string()], v);
}

#[test]
fn quoted_pipe_token_still_splits_stages() {
    // the splitter runs after unescaping, so a quoted pipe still separates
    // stages, and the empty stage between two of them has no command
    let v = rshell::args::process_args("a '|' '|' b");
    assert!(matches!(v, Err(Error::MissingCommand)));
}
