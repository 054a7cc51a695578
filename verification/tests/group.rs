use chex::group::{parse, Group};

#[test]
fn parses_input() {
    let groups = parse(
        r#"
    Checking chex v0.1.0 (/chex)
warning: unused import: `std::sync::Arc`
 --> src/main.rs:1:5
  |
1 | use std::sync::Arc;
  |     ^^^^^^^^^^^^^^
  |
  = note: `#[warn(unused_imports)]` on by default

error[E0277]: can't compare `std::vec::Vec<{integer}>` with `{integer}`
 --> src/main.rs:6:7
  |
6 |     x == y;
  |       ^^ no implementation for `std::vec::Vec<{integer}> == {integer}`
  |
  = help: the trait `std::cmp::PartialEq<{integer}>` is not implemented for `std::vec::Vec<{integer}>`
  = note: required because of the requirements on the impl of `std::cmp::PartialEq<std::vec::Vec<{integer}>>` for `std::vec::Vec<std::vec::Vec<{integer}>>`

error[E0308]: mismatched types
 --> src/main.rs:3:13
  |
3 | fn foo() -> bool {
  |    ---      ^^^^ expected `bool`, found `()`
  |    |
  |    implicitly returns `()` as its body has no tail or `return` expression
...
6 |     x == y;
  |           - help: consider removing this semicolon

error: aborting due to 2 previous errors; 1 warning emitted

Some errors have detailed explanations: E0277, E0308.
For more information about an error, try `rustc --explain E0277`.
error: could not compile `chex`.

To learn more, run the command again with --verbose.
"#,
    );

    assert_eq!(
        groups,
        vec![
            Group::Warning(
                r#"
warning: unused import: `std::sync::Arc`
 --> src/main.rs:1:5
  |
1 | use std::sync::Arc;
  |     ^^^^^^^^^^^^^^
  |
  = note: `#[warn(unused_imports)]` on by default"#
                    .trim()
                    .lines()
                    .collect()
            ),
            Group::Error(
                r#"
error[E0277]: can't compare `std::vec::Vec<{integer}>` with `{integer}`
 --> src/main.rs:6:7
  |
6 |     x == y;
  |       ^^ no implementation for `std::vec::Vec<{integer}> == {integer}`
  |
  = help: the trait `std::cmp::PartialEq<{integer}>` is not implemented for `std::vec::Vec<{integer}>`
  = note: required because of the requirements on the impl of `std::cmp::PartialEq<std::vec::Vec<{integer}>>` for `std::vec::Vec<std::vec::Vec<{integer}>>`"#
                    .trim()
                    .lines()
                    .collect()
            ),
            Group::Error(
                r#"
error[E0308]: mismatched types
 --> src/main.rs:3:13
  |
3 | fn foo() -> bool {
  |    ---      ^^^^ expected `bool`, found `()`
  |    |
  |    implicitly returns `()` as its body has no tail or `return` expression
...
6 |     x == y;
  |           - help: consider removing this semicolon
"#
                .trim()
                .lines()
                .collect()
            ),
        ]
    );
}

#[test]
fn progress_line_excluded_from_groups() {
    let groups = parse("   Checking demo v0.1.0 (/demo)\nwarning: something\nmore\n");
    assert_eq!(
        groups,
        vec![Group::Warning(vec!["warning: something", "more"])]
    );
    for g in &groups {
        for line in g.inner() {
            assert!(!line.contains("Checking"));
        }
    }
}

#[test]
fn bare_error_trailer_dropped() {
    let groups = parse(
        "warning: unused variable\n note\n\nerror: aborting due to 2 previous errors; 1 warning emitted\n",
    );
    assert_eq!(
        groups,
        vec![Group::Warning(vec!["warning: unused variable", " note"])]
    );
}

#[test]
fn group_order_follows_block_order() {
    let groups = parse(
        "warning: first\n\nerror[E0001]: second\n\nwarning: third\n\nerror[E0002]: fourth",
    );
    assert_eq!(
        groups,
        vec![
            Group::Warning(vec!["warning: first"]),
            Group::Error(vec!["error[E0001]: second"]),
            Group::Warning(vec!["warning: third"]),
            Group::Error(vec!["error[E0002]: fourth"]),
        ]
    );
}

#[test]
fn warning_then_error_blocks() {
    let groups = parse(
        "warning: w1\nw2\nw3\n\nerror[E0308]: e1\ne2\ne3\ne4\n",
    );
    assert_eq!(groups.len(), 2);
    assert_eq!(
        groups[0],
        Group::Warning(vec!["warning: w1", "w2", "w3"])
    );
    assert_eq!(groups[0].inner().len(), 3);
    assert_eq!(
        groups[1],
        Group::Error(vec!["error[E0308]: e1", "e2", "e3", "e4"])
    );
    assert_eq!(groups[1].inner().len(), 4);
}

#[test]
fn empty_input_yields_no_groups() {
    assert_eq!(parse(""), Vec::<Group>::new());
    assert_eq!(parse("   \n \n"), Vec::<Group>::new());
}

#[test]
fn unicode_whitespace_separates_blocks() {
    let groups = parse("warning: one\n\u{00A0}\u{2003}\nerror[E1]: two\n");
    assert_eq!(
        groups,
        vec![
            Group::Warning(vec!["warning: one"]),
            Group::Error(vec!["error[E1]: two"]),
        ]
    );
    let trimmed = parse("\u{2028}warning: w\u{3000}\n");
    assert_eq!(trimmed, vec![Group::Warning(vec!["warning: w"])]);
}

#[test]
fn carriage_return_breaks_are_accepted() {
    let groups = parse("warning: one\r\ntwo\r\n");
    assert_eq!(groups, vec![Group::Warning(vec!["warning: one", "two"])]);
}
