use gdd::file_name::get_file_name;

#[test]
fn name_stands_between_last_slash_and_extension() {
    assert_eq!(get_file_name("examples/hello.ddg"), Some("hello"));
    assert_eq!(get_file_name("./a/b/c/prog.ddg"), Some("prog"));
    assert_eq!(get_file_name("/x.ddg"), Some("x"));
}

#[test]
fn name_may_be_empty() {
    assert_eq!(get_file_name("dir/.ddg"), Some(""));
}

#[test]
fn name_ends_at_the_first_extension() {
    assert_eq!(get_file_name("dir/a.ddg.ddg"), Some("a"));
}

#[test]
fn name_may_hold_any_characters() {
    assert_eq!(get_file_name("très/柴犬 duck.ddg"), Some("柴犬 duck"));
}

#[test]
fn path_without_slash_has_no_name() {
    assert_eq!(get_file_name("hello.ddg"), None);
}

#[test]
fn path_without_extension_has_no_name() {
    assert_eq!(get_file_name("dir/hello.duck"), None);
    assert_eq!(get_file_name(""), None);
}

#[test]
fn extension_before_the_last_slash_gives_no_name() {
    assert_eq!(get_file_name("a.ddg/b"), None);
    assert_eq!(get_file_name("a.ddg/b.ddg"), None);
}
