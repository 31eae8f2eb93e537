use arxiv_dl::arxiv_id::match_arxiv_id;

#[test]
fn modern_identifier_accepted() {
    assert!(match_arxiv_id("0704.0001"));
}

#[test]
fn legacy_identifier_with_version_accepted() {
    assert!(match_arxiv_id("hep-th/9901001v1"));
}

#[test]
fn plain_word_rejected() {
    assert!(!match_arxiv_id("not-an-id"));
}

#[test]
fn documented_forms_accepted() {
    for id in [
        "hep-th/9901001",
        "hep-th/9901001v1",
        "math.CA/0611800v2",
        "0704.0001",
        "0704.0001v1",
        "1412.7878",
        "1501.00001",
        "9912.12345v2",
    ] {
        assert!(match_arxiv_id(id), "{}", id);
    }
}

#[test]
fn malformed_identifiers_rejected() {
    for id in [
        "",
        "0704.001",
        "0704.000001",
        "07040.0001",
        "0704-0001",
        "0704.0001v",
        "0704.0001x",
        "hep-th/990100",
        "hep-th/99010011",
        "hepth/9901001",
        "hep-th/9901001v",
        "-th/9901001",
        "hep-/9901001",
        "hep-th9901001",
        "hep th/9901001",
    ] {
        assert!(!match_arxiv_id(id), "{}", id);
    }
}

#[test]
fn embedded_identifier_rejected() {
    assert!(!match_arxiv_id("see 0704.0001"));
    assert!(!match_arxiv_id("0704.0001 and more"));
    assert!(!match_arxiv_id("xhep-th/9901001/"));
}

#[test]
fn no_digit_after_separator_rejected() {
    assert!(!match_arxiv_id("hep-th/abcdefg"));
    assert!(!match_arxiv_id("abcd.efgh"));
}

#[test]
fn non_ascii_rejected() {
    assert!(!match_arxiv_id("hép-th/9901001"));
    assert!(!match_arxiv_id("０７０４.0001"));
}
