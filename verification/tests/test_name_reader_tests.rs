use slotgate::config::test_name_reader::TestNameReader;

#[test]
fn names_in_a_file_whose_attribute_precedes_a_struct_finds_none() {
    let names = TestNameReader::names_in("#[test]\nstruct NotATest;\n");
    assert!(names.is_empty(), "{names:?}");
}

#[test]
fn names_in_a_file_whose_attributes_stack_still_finds_the_test() {
    let names = TestNameReader::names_in("#[test]\n#[serial]\nfn alpha() {}\n");
    assert_eq!(names, ["alpha"]);
}

#[test]
fn names_in_a_file_with_a_non_harness_attribute_finds_none() {
    let names = TestNameReader::names_in("#[cfg(test)]\nfn helper() {}\n");
    assert!(names.is_empty(), "{names:?}");
}

#[test]
fn names_in_a_file_with_an_async_harness_finds_the_test() {
    let names = TestNameReader::names_in("#[tokio::test]\nasync fn beta() {}\n");
    assert_eq!(names, ["beta"]);
}

#[test]
fn names_in_a_file_with_no_harness_attributes_finds_none() {
    let names = TestNameReader::names_in("pub mod widget_tests;\nfn helper() {}\n");
    assert!(names.is_empty(), "{names:?}");
}

#[test]
fn names_in_a_file_with_several_tests_finds_them_in_order() {
    let names = TestNameReader::names_in("#[test]\nfn alpha() {}\n\n#[test]\nfn beta() {}\n");
    assert_eq!(names, ["alpha", "beta"]);
}

#[test]
fn names_in_reads_indented_pub_functions_and_blank_lines_between() {
    let names = TestNameReader::names_in(
        "mod inner {\r\n    #[test]\r\n\r\n    pub fn gamma_1() {}\r\n}\r\n",
    );
    assert_eq!(names, ["gamma_1"]);
}

#[test]
fn names_in_a_line_after_the_harness_that_is_neither_disarms_it() {
    let names = TestNameReader::names_in("#[test]\n// a comment\nfn delta() {}\n");
    assert!(names.is_empty(), "{names:?}");
}

#[test]
fn helpers_read_attributes_and_function_lines() {
    let chars = |s: &str| s.chars().collect::<Vec<char>>();
    assert!(TestNameReader::is_harness_attribute(&chars("#[test]")));
    assert!(TestNameReader::is_harness_attribute(&chars("#[tokio::test]")));
    assert!(!TestNameReader::is_harness_attribute(&chars("#[cfg(test)]")));
    assert!(!TestNameReader::is_harness_attribute(&chars("#[testing]")));
    assert!(TestNameReader::keeps_arming(&chars("#[serial]")));
    assert!(TestNameReader::keeps_arming(&chars("")));
    assert!(!TestNameReader::keeps_arming(&chars("struct A;")));
    assert_eq!(
        TestNameReader::function_name_of(&chars("pub async fn epsilon_2() {")),
        Some(String::from("epsilon_2"))
    );
    assert_eq!(TestNameReader::function_name_of(&chars("fn () {}")), None);
    assert_eq!(TestNameReader::function_name_of(&chars("async pub fn x() {}")), None);
}

#[test]
fn names_in_a_file_whose_harness_takes_arguments_finds_the_test() {
    let names = TestNameReader::names_in(
        "#[tokio::test(start_paused = true)]\nasync fn gamma() {}\n\n#[tokio::test(flavor = \"multi_thread\")]\nasync fn delta() {}\n",
    );
    assert_eq!(names, ["gamma", "delta"]);
}

#[test]
fn an_attribute_whose_arguments_mention_test_is_no_harness() {
    let names = TestNameReader::names_in("#[cfg_attr(test, derive(Debug))]\nfn helper() {}\n");
    assert!(names.is_empty(), "{names:?}");
    let chars = |s: &str| s.chars().collect::<Vec<char>>();
    assert!(TestNameReader::is_harness_attribute(&chars("#[test(arg)]")));
    assert!(TestNameReader::is_harness_attribute(&chars("#[tokio::test ( flavor = \"current_thread\" )]")));
    assert!(!TestNameReader::is_harness_attribute(&chars("#[rstest::fixture(test)]")));
}
