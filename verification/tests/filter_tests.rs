use slingshot::filter_file_data;
use slingshot::FileData;

fn gen_file_data(names: Vec<&str>, extension: &str) -> Vec<FileData> {
    let mut out: Vec<FileData> = Vec::new();
    for name in names {
        out.push(FileData {
            shortname: name.to_owned(),
            absolute: "test-absolute".to_owned(),
            extension: extension.to_owned(),
            icon: "test-icon".to_owned(),
            marked_for_deletion: false,
        });
    }
    out
}

fn shortnames(files: &Vec<FileData>) -> Vec<String> {
    files.iter().map(|fd| fd.shortname.clone()).collect()
}

#[test]
fn test_filter_file_data() {
    let test_file_input = gen_file_data(
        vec!["abaaaa", "baaaa", "aaaba", "asdasddasdaasa", "bbbbbba"],
        "py",
    );

    struct TestCase {
        input: String,
        expected: Vec<&'static str>,
    }

    let test_cases = vec![
        TestCase {
            input: String::from("b"),
            expected: vec!["baaaa", "bbbbbba", "abaaaa", "aaaba"],
        },
        TestCase {
            input: String::from("bb"),
            expected: vec!["bbbbbba"],
        },
        TestCase {
            input: String::from("asd"),
            expected: vec!["asdasddasdaasa"],
        },
    ];

    for test_case in test_cases {
        let filtered = filter_file_data(&test_file_input, &test_case.input);

        for (i, file_data) in filtered.iter().enumerate() {
            println!("{}, ", file_data.shortname);
            assert_eq!(file_data.shortname, test_case.expected[i].to_owned())
        }
    }
}

#[test]
fn test_filter_is_case_insensitive() {
    let files = gen_file_data(vec!["README.md", "readout.txt", "Makefile"], "");
    let filtered = filter_file_data(&files, "read");
    assert_eq!(shortnames(&filtered), vec!["README.md", "readout.txt"]);
    let filtered = filter_file_data(&files, "MAKE");
    assert_eq!(shortnames(&filtered), vec!["Makefile"]);
}

#[test]
fn test_filter_idempotent() {
    let files = gen_file_data(
        vec!["test.txt", "aaaatea.txt", "tomb.txt", "wow", "damn"],
        "",
    );
    let once = filter_file_data(&files, "t");
    let twice = filter_file_data(&once, "t");
    assert_eq!(shortnames(&once), shortnames(&twice));
}

#[test]
fn test_filter_subset_of_input() {
    let files = gen_file_data(
        vec!["test.txt", "aaaatea.txt", "tomb.txt", "wow", "damn"],
        "",
    );
    let names: Vec<String> = shortnames(&files);
    for term in ["t", "te", "a", "o", ""] {
        let filtered = filter_file_data(&files, term);
        for fd in &filtered {
            assert!(names.contains(&fd.shortname));
        }
    }
}

#[test]
fn test_filter_match_position_ordering() {
    let files = gen_file_data(
        vec!["test.txt", "aaaatea.txt", "tomb.txt", "wow", "damn"],
        "",
    );
    assert_eq!(
        shortnames(&filter_file_data(&files, "t")),
        vec!["test.txt", "tomb.txt", "aaaatea.txt"]
    );
    assert_eq!(
        shortnames(&filter_file_data(&files, "te")),
        vec!["test.txt", "aaaatea.txt"]
    );
    let empty: Vec<String> = Vec::new();
    assert_eq!(shortnames(&filter_file_data(&files, "te.")), empty);
}

#[test]
fn test_filter_empty_term_sorts_by_name() {
    let files = gen_file_data(vec!["zeta", "Alpha", "beta"], "");
    let filtered = filter_file_data(&files, "");
    assert_eq!(shortnames(&filtered), vec!["Alpha", "beta", "zeta"]);
}

#[test]
fn test_filter_keeps_ties_stable() {
    // Equal match position and equal folded name: catalog order decides.
    let files = vec![
        FileData {
            shortname: "same".to_owned(),
            absolute: "first".to_owned(),
            extension: "".to_owned(),
            icon: "".to_owned(),
            marked_for_deletion: false,
        },
        FileData {
            shortname: "same".to_owned(),
            absolute: "second".to_owned(),
            extension: "".to_owned(),
            icon: "".to_owned(),
            marked_for_deletion: false,
        },
    ];
    let filtered = filter_file_data(&files, "same");
    assert_eq!(filtered.len(), 2);
    assert_eq!(filtered[0].absolute, "first");
    assert_eq!(filtered[1].absolute, "second");
}

#[test]
fn test_filter_does_not_touch_input() {
    let files = gen_file_data(vec!["one", "two"], "");
    let _ = filter_file_data(&files, "o");
    assert_eq!(shortnames(&files), vec!["one", "two"]);
}
