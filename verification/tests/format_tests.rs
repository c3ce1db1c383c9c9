fn strings(v: &[&str]) -> Vec<String> {
    v.iter().map(|s| s.to_string()).collect()
}

#[test]
fn one_extension_verbatim() {
    assert_eq!(
        sigmatch::vec_to_human_readable_string(&strings(&["jpg"])),
        "jpg"
    );
}

#[test]
fn two_extensions_joined_with_or() {
    assert_eq!(
        sigmatch::vec_to_human_readable_string(&strings(&["jpg", "jpeg"])),
        "jpg or jpeg"
    );
}

#[test]
fn three_extensions_with_oxford_comma() {
    assert_eq!(
        sigmatch::vec_to_human_readable_string(&strings(&["jpg", "jpeg", "jpe"])),
        "jpg, jpeg, or jpe"
    );
}

#[test]
fn four_extensions_with_oxford_comma() {
    assert_eq!(
        sigmatch::vec_to_human_readable_string(&strings(&["a", "b", "c", "d"])),
        "a, b, c, or d"
    );
}

#[test]
fn sole_empty_extension_reads_as_variable() {
    assert_eq!(
        sigmatch::vec_to_human_readable_string(&strings(&[""])),
        "variable or empty extension"
    );
}

#[test]
fn empty_list_reads_as_variable() {
    assert_eq!(
        sigmatch::vec_to_human_readable_string(&Vec::new()),
        "variable or empty extension"
    );
}

#[test]
fn extensions_split_on_pipe() {
    assert_eq!(sigmatch::split_extensions("jpg|jpeg"), strings(&["jpg", "jpeg"]));
    assert_eq!(sigmatch::split_extensions("jpg"), strings(&["jpg"]));
    assert_eq!(sigmatch::split_extensions(""), strings(&[""]));
    assert_eq!(sigmatch::split_extensions("a||b"), strings(&["a", "", "b"]));
    assert_eq!(sigmatch::split_extensions("|"), strings(&["", ""]));
}

#[test]
fn split_then_format_pipeline() {
    let exts = sigmatch::split_extensions("jpg|jpeg|jpe");
    assert_eq!(
        sigmatch::vec_to_human_readable_string(&exts),
        "jpg, jpeg, or jpe"
    );
}
