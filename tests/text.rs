use gracekill::{parse_cmdline, strip_comment};

#[test]
fn it_strips_comments() {
    assert_eq!(
        strip_comment(String::from("Foobar")),
        String::from("Foobar"),
    );

    assert_eq!(strip_comment(String::from("Foo#bar")), String::from("Foo"),);

    assert_eq!(
        strip_comment(String::from(" Complicated # oh yes!! # another one")),
        String::from("Complicated"),
    );

    assert_eq!(
        strip_comment(String::from("# Just a comment")),
        String::from(""),
    );

    assert_eq!(
        strip_comment(String::from("  \t# Just a comment")),
        String::from(""),
    );
}

#[test]
fn it_parses_cmdlines() {
    let input = "/usr/bin/bash\0-c\0echo hello world\0";
    let expected_output = "/usr/bin/bash -c echo hello world";

    assert_eq!(&parse_cmdline(input), expected_output);
}

#[test]
fn line_without_comment_is_kept_as_is() {
    assert_eq!(strip_comment(String::from("  spaced  ")), String::from("  spaced  "));
}

#[test]
fn comment_strip_trims_unicode_white_space() {
    assert_eq!(strip_comment(String::from("\u{3000}name\u{a0}#x")), String::from("name"));
}

#[test]
fn cmdline_example_and_idempotence() {
    let once = parse_cmdline("/bin/sh\0-c\0echo hi\0");
    assert_eq!(once, "/bin/sh -c echo hi");
    let twice = parse_cmdline(&once);
    assert_eq!(twice, once);
}

#[test]
fn cmdline_trailing_white_space_removed() {
    assert_eq!(parse_cmdline("a\0\0 \n\0"), "a");
    assert_eq!(parse_cmdline(""), "");
    assert_eq!(parse_cmdline("\0\0"), "");
    assert_eq!(parse_cmdline("\0lead"), " lead");
}
