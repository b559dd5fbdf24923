use toggle::error::ToggleError;
use toggle::style::get_comment_style;

#[test]
fn python_uses_hash() {
    assert_eq!(get_comment_style("py").unwrap().single_line, "#");
}

#[test]
fn unknown_extension_is_unsupported() {
    assert_eq!(
        get_comment_style("xyz"),
        Err(ToggleError::UnsupportedExtension("xyz".to_string()))
    );
}

#[test]
fn every_registered_extension() {
    for ext in ["py", "sh", "rb"] {
        assert_eq!(get_comment_style(ext).unwrap().single_line, "#", "{}", ext);
    }
    for ext in ["js", "rs", "java", "c", "cpp"] {
        assert_eq!(get_comment_style(ext).unwrap().single_line, "//", "{}", ext);
    }
}

#[test]
fn extensions_are_matched_exactly() {
    for ext in ["", "PY", "Py", ".py", "py ", " py", "pyc", "p", "cp", "cpp2", "javascript"] {
        assert_eq!(
            get_comment_style(ext),
            Err(ToggleError::UnsupportedExtension(ext.to_string())),
            "{:?}",
            ext
        );
    }
}
