use nfs4_client::client::look_up_request;
use nfs4_client::path::path_components;

fn names(path: &str) -> Vec<String> {
    path_components(path)
}

#[test]
fn a_path_is_split_at_its_separators() {
    assert_eq!(names("/files/a_file"), vec!["files", "a_file"]);
    assert_eq!(names("files/a_file"), vec!["files", "a_file"]);
    assert_eq!(names("a"), vec!["a"]);
    assert_eq!(names("/a/b/c/"), vec!["a", "b", "c"]);
}

#[test]
fn empty_components_are_passed_over() {
    assert_eq!(names(""), Vec::<String>::new());
    assert_eq!(names("/"), Vec::<String>::new());
    assert_eq!(names("//"), Vec::<String>::new());
    assert_eq!(names("//files///a_file//"), vec!["files", "a_file"]);
}

#[test]
fn the_current_and_the_parent_directory_are_passed_over() {
    assert_eq!(names("/files/./a_file"), vec!["files", "a_file"]);
    assert_eq!(names("/files/../a_file"), vec!["files", "a_file"]);
    assert_eq!(names("./.."), Vec::<String>::new());
    assert_eq!(names("/.../.a/a./..b"), vec!["...", ".a", "a.", "..b"]);
}

#[test]
fn components_keep_their_characters() {
    assert_eq!(names("/päth/ü ber/日本"), vec!["päth", "ü ber", "日本"]);
    assert_eq!(names("a\\b/c"), vec!["a\\b", "c"]);
}

#[test]
fn a_look_up_has_one_operation_for_each_component() {
    let request = look_up_request("/files//./a_file");
    let look_ups: Vec<String> = (request.0).1.iter().map(|l| l.object_name.clone()).collect();
    assert_eq!(look_ups, vec!["files", "a_file"]);
    assert!((look_up_request("/").0).1.is_empty());
}
