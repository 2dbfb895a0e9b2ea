use file_screening::paths::{
    file_name, get_file_extension, is_hidden_file, name_extension, path_components, split_chars,
};
use file_screening::text::{chars_of, contains, ends_with, find, starts_with, str_eq};

fn chars(s: &str) -> Vec<char> {
    s.chars().collect()
}

fn strings(v: Vec<Vec<char>>) -> Vec<String> {
    v.into_iter().map(|c| c.into_iter().collect()).collect()
}

#[test]
fn chars_of_gives_the_characters() {
    assert_eq!(chars_of("aé/"), vec!['a', 'é', '/']);
    assert_eq!(chars_of(""), Vec::<char>::new());
}

#[test]
fn searching_text() {
    let s = chars("hello.app/x");
    assert_eq!(find(&s, &chars(".app/")), Some(5));
    assert_eq!(find(&s, &chars("l")), Some(2));
    assert_eq!(find(&s, &chars("zz")), None);
    assert_eq!(find(&s, &chars("")), Some(0));
    assert!(contains(&s, &chars("app")));
    assert!(!contains(&chars("ab"), &chars("abc")));
    assert!(starts_with(&s, &chars("hell")));
    assert!(!starts_with(&s, &chars("ello")));
    assert!(ends_with(&s, &chars("/x")));
    assert!(!ends_with(&s, &chars("app")));
    assert!(str_eq("abc", "abc"));
    assert!(!str_eq("abc", "abd"));
    assert!(!str_eq("abc", "ab"));
}

#[test]
fn splitting_keeps_empty_pieces() {
    assert_eq!(strings(split_chars(&chars("/a//b/"), '/')), vec!["", "a", "", "b", ""]);
    assert_eq!(strings(split_chars(&chars(""), '/')), vec![""]);
    assert_eq!(strings(split_chars(&chars("abc"), '/')), vec!["abc"]);
}

#[test]
fn components_leave_out_noise() {
    assert_eq!(strings(path_components("/a/./b//../c/")), vec!["a", "b", "c"]);
    assert_eq!(strings(path_components("/")), Vec::<String>::new());
    assert_eq!(strings(path_components("..")), Vec::<String>::new());
    assert_eq!(strings(path_components("rel/path")), vec!["rel", "path"]);
}

#[test]
fn file_name_is_the_final_component() {
    assert_eq!(file_name("/a/b.txt"), Some(chars("b.txt")));
    assert_eq!(file_name("/a/b/"), Some(chars("b")));
    assert_eq!(file_name("/a/b/."), Some(chars("b")));
    assert_eq!(file_name("/a/.."), None);
    assert_eq!(file_name("/"), None);
    assert_eq!(file_name(""), None);
}

#[test]
fn extension_follows_the_last_dot() {
    assert_eq!(name_extension(&chars("a.tar.gz")), Some(chars("gz")));
    assert_eq!(name_extension(&chars(".bashrc")), None);
    assert_eq!(name_extension(&chars(".a.b")), Some(chars("b")));
    assert_eq!(name_extension(&chars("noext")), None);
    assert_eq!(name_extension(&chars("trailing.")), Some(chars("")));
}

#[test]
fn file_extension_is_lowercased() {
    assert_eq!(get_file_extension("/docs/Report.TXT"), Some("txt".to_string()));
    assert_eq!(get_file_extension("/docs/archive.tar.GZ"), Some("gz".to_string()));
    assert_eq!(get_file_extension("/docs/Makefile"), None);
    assert_eq!(get_file_extension("/docs/.hidden"), None);
    assert_eq!(get_file_extension("/docs.d/.."), None);
    assert_eq!(get_file_extension("/root/App.app/"), Some("app".to_string()));
}

#[test]
fn hidden_paths() {
    assert!(is_hidden_file("/a/.git/config"));
    assert!(is_hidden_file(".DS_Store"));
    assert!(is_hidden_file("/a/b/.hidden"));
    assert!(!is_hidden_file("/a/b/c.txt"));
    assert!(!is_hidden_file("./a/../b"));
    assert!(!is_hidden_file("/a/b."));
    assert!(is_hidden_file("/a/..."));
}
