use ndk_build::error::NdkError;
use ndk_build::uid::uid_of_package;

#[test]
fn the_exact_package_is_chosen_over_one_that_contains_its_name() {
    let listing = "package:com.example\tuid:1000\npackage:com.example.demo\tuid:2000\n";
    assert_eq!(uid_of_package("com.example", listing), Ok(1000));
    assert_eq!(uid_of_package("com.example.demo", listing), Ok(2000));
}

#[test]
fn the_exact_package_is_found_behind_one_that_contains_its_name() {
    let listing = "package:com.example.demo\tuid:2000\npackage:com.example\tuid:1000";
    assert_eq!(uid_of_package("com.example", listing), Ok(1000));
}

#[test]
fn fields_may_be_separated_by_a_space() {
    let listing = "package:com.example.demo uid:10151\npackage:com.example uid:10150\n";
    assert_eq!(uid_of_package("com.example", listing), Ok(10150));
}

#[test]
fn lines_may_end_with_carriage_return_and_line_feed() {
    let listing = "package:com.example.demo uid:10151\r\npackage:com.example uid:10150\r\n";
    assert_eq!(uid_of_package("com.example", listing), Ok(10150));
    assert_eq!(uid_of_package("com.example.demo", listing), Ok(10151));
}

#[test]
fn the_first_of_two_lines_for_the_package_counts() {
    let listing = "package:com.example uid:1\npackage:com.example uid:2\n";
    assert_eq!(uid_of_package("com.example", listing), Ok(1));
}

#[test]
fn a_package_that_is_not_listed_is_not_in_the_output() {
    let listing = "package:com.example.demo\tuid:2000\n";
    assert_eq!(
        uid_of_package("com.example", listing),
        Err(NdkError::PackageNotInOutput {
            package: "com.example".to_string(),
            output: listing.to_string(),
        })
    );
}

#[test]
fn empty_output_lists_no_package() {
    assert_eq!(
        uid_of_package("com.example", ""),
        Err(NdkError::PackageNotInOutput {
            package: "com.example".to_string(),
            output: String::new(),
        })
    );
}

#[test]
fn a_listed_package_with_one_field_only() {
    let listing = "package:com.example\n";
    assert_eq!(
        uid_of_package("com.example", listing),
        Err(NdkError::UidNotInOutput(listing.to_string()))
    );
    assert_eq!(
        uid_of_package("com.example", "package:com.example"),
        Err(NdkError::UidNotInOutput("package:com.example".to_string()))
    );
}

#[test]
fn a_line_with_one_field_of_another_package_is_passed_over() {
    let listing = "package:com.example.demo\npackage:com.example uid:3\n";
    assert_eq!(uid_of_package("com.example", listing), Ok(3));
}

#[test]
fn a_line_without_the_package_prefix_lists_no_package() {
    let listing = "com.example uid:1000\n";
    assert_eq!(
        uid_of_package("com.example", listing),
        Err(NdkError::PackageNotInOutput {
            package: "com.example".to_string(),
            output: listing.to_string(),
        })
    );
}

#[test]
fn a_listed_package_without_uid_field() {
    let listing = "package:com.example\tversionCode:7\n";
    assert_eq!(
        uid_of_package("com.example", listing),
        Err(NdkError::UidNotInOutput(listing.to_string()))
    );
}

#[test]
fn a_listed_package_with_nothing_behind_the_separator() {
    let listing = "package:com.example \npackage:com.example uid:5\n";
    assert_eq!(
        uid_of_package("com.example", listing),
        Err(NdkError::UidNotInOutput(listing.to_string()))
    );
}

#[test]
fn a_uid_that_is_no_number() {
    let listing = "package:com.example\tuid:abc\n";
    assert_eq!(
        uid_of_package("com.example", listing),
        Err(NdkError::NotAUid("abc".to_string()))
    );
}

#[test]
fn an_empty_uid_is_no_number() {
    assert_eq!(
        uid_of_package("com.example", "package:com.example uid:"),
        Err(NdkError::NotAUid(String::new()))
    );
}

#[test]
fn a_uid_followed_by_more_text_is_no_number() {
    assert_eq!(
        uid_of_package("com.example", "package:com.example uid:1000 gids:3003\n"),
        Err(NdkError::NotAUid("1000 gids:3003".to_string()))
    );
}

#[test]
fn a_negative_uid_is_no_number() {
    assert_eq!(
        uid_of_package("com.example", "package:com.example uid:-1\n"),
        Err(NdkError::NotAUid("-1".to_string()))
    );
}

#[test]
fn a_lone_sign_is_no_number() {
    assert_eq!(
        uid_of_package("com.example", "package:com.example uid:+\n"),
        Err(NdkError::NotAUid("+".to_string()))
    );
}

#[test]
fn a_uid_may_carry_a_plus_sign() {
    assert_eq!(uid_of_package("com.example", "package:com.example uid:+42\n"), Ok(42));
}

#[test]
fn a_uid_may_have_leading_zeros() {
    assert_eq!(uid_of_package("com.example", "package:com.example uid:000000000000123\n"), Ok(123));
    assert_eq!(uid_of_package("com.example", "package:com.example uid:0\n"), Ok(0));
}

#[test]
fn the_largest_uid_fits() {
    assert_eq!(
        uid_of_package("com.example", "package:com.example uid:4294967295\n"),
        Ok(4294967295)
    );
}

#[test]
fn a_uid_beyond_32_bits_is_no_number() {
    assert_eq!(
        uid_of_package("com.example", "package:com.example uid:4294967296\n"),
        Err(NdkError::NotAUid("4294967296".to_string()))
    );
    assert_eq!(
        uid_of_package("com.example", "package:com.example uid:99999999999999999999999999\n"),
        Err(NdkError::NotAUid("99999999999999999999999999".to_string()))
    );
}

#[test]
fn a_carriage_return_at_the_very_end_belongs_to_the_uid() {
    assert_eq!(
        uid_of_package("com.example", "package:com.example uid:7\r"),
        Err(NdkError::NotAUid("7\r".to_string()))
    );
}

#[test]
fn empty_lines_are_passed_over() {
    let listing = "\n\r\npackage:com.example uid:77\n";
    assert_eq!(uid_of_package("com.example", listing), Ok(77));
}
