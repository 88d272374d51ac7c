use florui_platform::file_dialog::{FileDialogFilter, filter_patterns, OpenFileDialogOptions};

#[test]
fn no_filters_produces_no_patterns() {
    assert_eq!(filter_patterns(&[]), Vec::new());
}

#[test]
fn a_single_extension_becomes_one_glob() {
    let filters = [FileDialogFilter {
        label: "PNG".to_owned(),
        extensions: vec!["png".to_owned()],
    }];
    assert_eq!(
        filter_patterns(&filters),
        vec![("PNG".to_owned(), "*.png".to_owned())]
    );
}

#[test]
fn multiple_extensions_join_with_semicolons() {
    let filters = [FileDialogFilter {
        label: "Images".to_owned(),
        extensions: vec!["png".to_owned(), "jpg".to_owned()],
    }];
    assert_eq!(
        filter_patterns(&filters),
        vec![("Images".to_owned(), "*.png;*.jpg".to_owned())]
    );
}

#[test]
fn multiple_filters_preserve_order_and_labels() {
    let filters = [
        FileDialogFilter {
            label: "Images".to_owned(),
            extensions: vec!["png".to_owned()],
        },
        FileDialogFilter {
            label: "Text".to_owned(),
            extensions: vec!["txt".to_owned(), "md".to_owned()],
        },
    ];
    assert_eq!(
        filter_patterns(&filters),
        vec![
            ("Images".to_owned(), "*.png".to_owned()),
            ("Text".to_owned(), "*.txt;*.md".to_owned()),
        ]
    );
}

#[test]
fn a_filter_with_no_extensions_produces_an_empty_pattern() {
    let filters = [FileDialogFilter {
        label: "Nothing".to_owned(),
        extensions: vec![],
    }];
    assert_eq!(
        filter_patterns(&filters),
        vec![("Nothing".to_owned(), String::new())]
    );
}

#[test]
fn three_extensions_make_three_globs() {
    let filters = [FileDialogFilter {
        label: "Docs".to_owned(),
        extensions: vec!["a".to_owned(), "bb".to_owned(), "ccc".to_owned()],
    }];
    assert_eq!(
        filter_patterns(&filters),
        vec![("Docs".to_owned(), "*.a;*.bb;*.ccc".to_owned())]
    );
}

#[test]
fn default_open_options_ask_for_nothing() {
    let options = OpenFileDialogOptions::default();
    assert_eq!(options.title, None);
    assert!(options.filters.is_empty());
    assert!(!options.allow_multiple);
    assert_eq!(options.starting_directory, None);
}
