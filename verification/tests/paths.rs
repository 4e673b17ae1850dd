use ndk_build::path::{
    archive_path, debug_file_name, file_name, is_shared_library, join, unix_separators,
};
use ndk_build::target::Target;
use ndk_build::text::{begins_with, chain, holds, owned, text_of, to_chars};

#[test]
fn join_puts_one_slash_between_the_parts() {
    assert_eq!(join("target/apk", "demo.apk"), "target/apk/demo.apk");
    assert_eq!(join("target", "lib"), "target/lib");
}

#[test]
fn join_adds_no_slash_behind_a_separator() {
    assert_eq!(join("target/apk/", "demo.apk"), "target/apk/demo.apk");
    assert_eq!(join("C:\\build\\", "demo.apk"), "C:\\build\\demo.apk");
}

#[test]
fn join_with_an_empty_directory_is_the_name() {
    assert_eq!(join("", "demo.apk"), "demo.apk");
}

#[test]
fn join_with_an_empty_name_ends_with_the_separator() {
    assert_eq!(join("target", ""), "target/");
}

#[test]
fn file_name_is_what_follows_the_last_separator() {
    assert_eq!(file_name("target/aarch64-linux-android/debug/libdemo.so"), "libdemo.so");
    assert_eq!(file_name("C:\\work\\out\\libdemo.so"), "libdemo.so");
    assert_eq!(file_name("mixed\\dir/libdemo.so"), "libdemo.so");
}

#[test]
fn file_name_of_a_bare_name_is_the_name() {
    assert_eq!(file_name("libdemo.so"), "libdemo.so");
}

#[test]
fn file_name_is_empty_behind_a_trailing_separator() {
    assert_eq!(file_name("target/debug/"), "");
    assert_eq!(file_name("target\\debug\\"), "");
    assert_eq!(file_name(""), "");
}

#[test]
fn file_name_keeps_characters_outside_ascii() {
    assert_eq!(file_name("bücher/libø.so"), "libø.so");
}

#[test]
fn debug_file_name_replaces_the_extension() {
    assert_eq!(debug_file_name("libdemo.so"), "libdemo.dwarf");
    assert_eq!(debug_file_name("libdemo.so.1"), "libdemo.so.dwarf");
}

#[test]
fn debug_file_name_adds_the_extension_where_there_is_none() {
    assert_eq!(debug_file_name("libdemo"), "libdemo.dwarf");
    assert_eq!(debug_file_name(".hidden"), ".hidden.dwarf");
    assert_eq!(debug_file_name(""), ".dwarf");
}

#[test]
fn debug_file_name_of_a_name_that_ends_with_a_dot() {
    assert_eq!(debug_file_name("libdemo."), "libdemo.dwarf");
}

#[test]
fn shared_libraries_have_the_extension_so() {
    assert!(is_shared_library("libdemo.so"));
    assert!(is_shared_library("a.b.so"));
    assert!(is_shared_library("x.so"));
}

#[test]
fn other_files_are_no_shared_libraries() {
    assert!(!is_shared_library("libdemo.so.1"));
    assert!(!is_shared_library("libdemo.a"));
    assert!(!is_shared_library("libdemo"));
    assert!(!is_shared_library("so"));
    assert!(!is_shared_library(".so"));
    assert!(!is_shared_library("libdemo.SO"));
    assert!(!is_shared_library("libdemo.soo"));
    assert!(!is_shared_library("libdemo.s"));
    assert!(!is_shared_library("libdemo."));
    assert!(!is_shared_library(""));
}

#[test]
fn unix_separators_replaces_every_backslash() {
    assert_eq!(unix_separators("lib\\arm64-v8a\\libdemo.so"), "lib/arm64-v8a/libdemo.so");
    assert_eq!(unix_separators("\\\\"), "//");
}

#[test]
fn unix_separators_leaves_other_text_alone() {
    assert_eq!(unix_separators("lib/x86/libdemo.so"), "lib/x86/libdemo.so");
    assert_eq!(unix_separators(""), "");
    assert_eq!(unix_separators("ås\\ø"), "ås/ø");
}

#[test]
fn archive_path_is_lib_abi_name() {
    assert_eq!(archive_path(Target::Arm64V8a, "libdemo.so"), "lib/arm64-v8a/libdemo.so");
    assert_eq!(archive_path(Target::ArmV7a, "libdemo.so"), "lib/armeabi-v7a/libdemo.so");
    assert_eq!(archive_path(Target::X86, "libdemo.so"), "lib/x86/libdemo.so");
    assert_eq!(archive_path(Target::X86_64, "libdemo.so"), "lib/x86_64/libdemo.so");
}

#[test]
fn archive_path_never_holds_a_backslash() {
    assert_eq!(archive_path(Target::Arm64V8a, "odd\\name.so"), "lib/arm64-v8a/odd/name.so");
    let from_windows = file_name("C:\\work\\out\\libdemo.so");
    assert_eq!(archive_path(Target::Arm64V8a, &from_windows), "lib/arm64-v8a/libdemo.so");
}

#[test]
fn android_abi_names() {
    assert_eq!(Target::ArmV7a.android_abi(), "armeabi-v7a");
    assert_eq!(Target::Arm64V8a.android_abi(), "arm64-v8a");
    assert_eq!(Target::X86.android_abi(), "x86");
    assert_eq!(Target::X86_64.android_abi(), "x86_64");
}

#[test]
fn to_chars_gives_each_character() {
    assert_eq!(to_chars("aø/"), vec!['a', 'ø', '/']);
    assert_eq!(to_chars(""), Vec::<char>::new());
}

#[test]
fn text_of_gives_the_range() {
    let chars = vec!['u', 'i', 'd', ':', '7'];
    assert_eq!(text_of(&chars, 0, 3), "uid");
    assert_eq!(text_of(&chars, 4, 5), "7");
    assert_eq!(text_of(&chars, 2, 2), "");
    assert_eq!(text_of(&chars, 0, 5), "uid:7");
}

#[test]
fn chain_puts_the_second_behind_the_first() {
    assert_eq!(chain("pass:", "secret"), "pass:secret");
    assert_eq!(chain("", "x"), "x");
    assert_eq!(chain("x", ""), "x");
}

#[test]
fn owned_copies_what_is_there() {
    assert_eq!(owned(Some("emulator-5554")), Some("emulator-5554".to_string()));
    assert_eq!(owned(None), None);
}

#[test]
fn holds_finds_equal_text() {
    let texts = vec!["a".to_string(), "bc".to_string()];
    assert!(holds(&texts, &"bc".to_string()));
    assert!(!holds(&texts, &"b".to_string()));
    assert!(!holds(&Vec::new(), &"a".to_string()));
}

#[test]
fn begins_with_compares_from_the_given_place() {
    let chars = to_chars("package:com.example uid:10");
    assert!(begins_with(&chars, 0, &to_chars("package:")));
    assert!(begins_with(&chars, 20, &to_chars("uid:")));
    assert!(!begins_with(&chars, 19, &to_chars("uid:")));
    assert!(!begins_with(&chars, 24, &to_chars("100")));
    assert!(begins_with(&chars, 26, &to_chars("")));
}
