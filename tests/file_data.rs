use starlang::file_data::{FileData, FileHandle};

#[test]
fn added_files_are_found_by_handle() {
    let mut files = FileData::new();
    let a = files.add("a.sl".to_string(), "function main() {}".to_string());
    let b = files.add("b.sl".to_string(), "# nothing".to_string());
    assert_eq!(a, FileHandle::dummy());
    assert_eq!(b, FileHandle(1));
    assert_eq!(files.get_name(b), "b.sl");
    assert_eq!(files.get_contents(a), "function main() {}");
}
