use disk_regions::removable::{attribute_path, file_name, removable_attribute, says_removable};
use std::path::Path;

fn std_file_name(path: &str) -> Option<String> {
    Path::new(path).file_name().and_then(|name| name.to_str()).map(|name| name.to_owned())
}

#[test]
fn file_name_is_the_last_component() {
    assert_eq!(file_name("/dev/sda"), Some(String::from("sda")));
    assert_eq!(file_name("../../sda"), Some(String::from("sda")));
    assert_eq!(file_name("sda"), Some(String::from("sda")));
    assert_eq!(file_name("/dev/disk/by-id/ata-Disk_123"), Some(String::from("ata-Disk_123")));
}

#[test]
fn file_name_passes_over_slashes_and_dots() {
    assert_eq!(file_name("/dev/sda/"), Some(String::from("sda")));
    assert_eq!(file_name("/dev/sda///"), Some(String::from("sda")));
    assert_eq!(file_name("/dev/sda/."), Some(String::from("sda")));
    assert_eq!(file_name("/dev/./sda/./"), Some(String::from("sda")));
    assert_eq!(file_name("./sda"), Some(String::from("sda")));
}

#[test]
fn file_name_is_missing_where_nothing_is_named() {
    assert_eq!(file_name(""), None);
    assert_eq!(file_name("/"), None);
    assert_eq!(file_name("//"), None);
    assert_eq!(file_name("."), None);
    assert_eq!(file_name("./"), None);
    assert_eq!(file_name("/."), None);
    assert_eq!(file_name(".."), None);
    assert_eq!(file_name("/dev/.."), None);
    assert_eq!(file_name("/dev/../"), None);
    assert_eq!(file_name("/dev/../."), None);
}

#[test]
fn file_name_keeps_names_that_only_look_like_dots() {
    assert_eq!(file_name("/dev/..."), Some(String::from("...")));
    assert_eq!(file_name("/dev/..a"), Some(String::from("..a")));
    assert_eq!(file_name("/dev/.a"), Some(String::from(".a")));
    assert_eq!(file_name("/dev/a."), Some(String::from("a.")));
}

#[test]
fn file_name_counts_characters_not_bytes() {
    assert_eq!(file_name("/dév/sdä"), Some(String::from("sdä")));
    assert_eq!(file_name("/dev/磁盘/"), Some(String::from("磁盘")));
}

#[test]
fn file_name_agrees_with_the_standard_library() {
    for path in [
        "", "/", "//", ".", "./", "/.", "..", "../", "/..", "a", "a/", "a/.", "a/..", "a/b",
        "a//b", "a/./b", "a/b/.", "a/b/./", "a/b/..", "./a", "../a", "/dev/sda", "/dev/sda1/",
        "../../sdb", "...", "a/...", ".a", "a.", "/a/.b/", "/dev/sdä", "x/./.", "././.", "/./a/./",
    ] {
        assert_eq!(file_name(path), std_file_name(path), "for {:?}", path);
    }
}

#[test]
fn attribute_lies_under_the_block_class() {
    assert_eq!(removable_attribute("sda"), "/sys/class/block/sda/removable");
    assert_eq!(removable_attribute(""), "/sys/class/block//removable");
}

#[test]
fn attribute_is_named_by_the_link_target_if_there_is_one() {
    assert_eq!(
        attribute_path("/dev/disk/by-id/usb-Stick", Some("../../sdc")),
        Some(String::from("/sys/class/block/sdc/removable"))
    );
    assert_eq!(
        attribute_path("/dev/sda", None),
        Some(String::from("/sys/class/block/sda/removable"))
    );
}

#[test]
fn attribute_is_missing_where_the_path_names_nothing() {
    assert_eq!(attribute_path("/", None), None);
    assert_eq!(attribute_path("/dev/sda", Some("..")), None);
    assert_eq!(attribute_path("", None), None);
}

#[test]
fn only_the_digit_one_says_removable() {
    assert!(says_removable(Some(b'1')));
    assert!(!says_removable(Some(b'0')));
    assert!(!says_removable(Some(1)));
    assert!(!says_removable(Some(b'\n')));
    assert!(!says_removable(None));
}
