use trilobyte::naming::{
    cipher_output_path, key_output_path, plain_output_path, split_path, tmp_output_path,
};

#[test]
fn split_with_directory() {
    let parts = split_path(&b"dir/name.txt".to_vec());
    assert_eq!(parts.dir, b"dir".to_vec());
    assert_eq!(parts.name, b"name.txt".to_vec());
    assert_eq!(parts.stem, b"name".to_vec());
    assert_eq!(parts.ext, Some(b"txt".to_vec()));
}

#[test]
fn split_without_directory_defaults_to_current() {
    let parts = split_path(&b"name.txt".to_vec());
    assert_eq!(parts.dir, b".".to_vec());
    assert_eq!(parts.stem, b"name".to_vec());
    assert_eq!(parts.ext, Some(b"txt".to_vec()));
}

#[test]
fn split_nested_directories() {
    let parts = split_path(&b"a/b/c.dat".to_vec());
    assert_eq!(parts.dir, b"a/b".to_vec());
    assert_eq!(parts.stem, b"c".to_vec());
    assert_eq!(parts.ext, Some(b"dat".to_vec()));
}

#[test]
fn split_rooted_path() {
    let parts = split_path(&b"/x.t".to_vec());
    assert_eq!(parts.dir, b"/".to_vec());
    assert_eq!(parts.stem, b"x".to_vec());
    assert_eq!(parts.ext, Some(b"t".to_vec()));
}

#[test]
fn split_without_extension() {
    let parts = split_path(&b"dir/name".to_vec());
    assert_eq!(parts.stem, b"name".to_vec());
    assert_eq!(parts.ext, None);
}

#[test]
fn split_hidden_file_has_no_extension() {
    let parts = split_path(&b".hidden".to_vec());
    assert_eq!(parts.stem, b".hidden".to_vec());
    assert_eq!(parts.ext, None);
}

#[test]
fn split_empty_file_name() {
    let parts = split_path(&b"dir/".to_vec());
    assert_eq!(parts.name, b"".to_vec());
}

#[test]
fn key_output_path_uses_cef() {
    assert_eq!(key_output_path(&b"dir/name.txt".to_vec()), b"dir/name.cef".to_vec());
    assert_eq!(key_output_path(&b"report.txt".to_vec()), b"./report.cef".to_vec());
}

#[test]
fn cipher_output_path_keeps_extension() {
    assert_eq!(cipher_output_path(&b"dir/name.txt".to_vec()), b"dir/name.txt.csd".to_vec());
    assert_eq!(cipher_output_path(&b"report.txt".to_vec()), b"./report.txt.csd".to_vec());
}

#[test]
fn plain_output_path_drops_both_extensions() {
    assert_eq!(plain_output_path(&b"dir/name.ext.csd".to_vec()), b"dir/name".to_vec());
    assert_eq!(plain_output_path(&b"report.txt.csd".to_vec()), b"./report".to_vec());
}

#[test]
fn tmp_output_path_stages_beside_output() {
    assert_eq!(tmp_output_path(&b"dir/name.ext.csd".to_vec()), b"dir/name.part".to_vec());
}
