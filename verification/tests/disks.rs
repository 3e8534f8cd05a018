use vzctl::vm::{check_image_format, clone_mode_for, CloneMode};

#[test]
fn clone_mode_follows_the_file_system() {
    assert_eq!(clone_mode_for(Some("apfs")), CloneMode::Linked);
    assert_eq!(clone_mode_for(Some("APFS")), CloneMode::Linked);
    assert_eq!(clone_mode_for(Some("hfs")), CloneMode::Full);
    assert_eq!(clone_mode_for(None), CloneMode::Full);
    assert_eq!(CloneMode::Linked.as_str(), "linked");
    assert_eq!(CloneMode::Full.as_str(), "full");
}

#[test]
fn only_raw_and_qcow_images_are_sealed() {
    assert!(check_image_format("raw").is_ok());
    assert!(check_image_format("qcow").is_ok());
    assert!(check_image_format("qcow2").is_ok());
    let (code, message) = check_image_format("vmdk").unwrap_err();
    assert_eq!(code, 3);
    assert_eq!(message, "unsupported image format vmdk; expected raw or qcow2");
}
