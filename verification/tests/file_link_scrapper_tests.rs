use r_web_file_downloader::file_link_scrapper::get_all_files_links;
use r_web_file_downloader::file_link_scrapper::get_fake_links_for_test;
use r_web_file_downloader::FetchError;

#[test]
fn test_get_all_files_links_for_pdf_extension_returns_list() {
    let exp_list_of_pdfs = vec![
        "https://www.test.com/file_pdf_1.pdf".to_string(),
        "https://www.test.com/file_pdf_2.pdf".to_string(),
        "https://www.test.com/secret/lab/file_pdf_secret.pdf".to_string(),
    ];

    let body = get_fake_links_for_test("https://www.test.com");
    let output = get_all_files_links("https://www.test.com", &body, "pdf").unwrap();

    for exp_url in exp_list_of_pdfs.iter() {
        assert!(output.contains(exp_url));
    }
}

#[test]
fn test_get_all_files_links_for_txt_extension_returns_list() {
    let exp_list_of_txts = vec!["https://www.test.com/file_txt_1.txt".to_string()];

    let body = get_fake_links_for_test("https://www.test.com");
    let output = get_all_files_links("https://www.test.com", &body, "txt").unwrap();

    for exp_url in exp_list_of_txts.iter() {
        assert!(output.contains(exp_url));
    }
}

#[test]
fn test_get_all_files_links_for_invalid_extension_returns_empty_list() {
    let body = get_fake_links_for_test("https://www.test.com");
    let output = get_all_files_links("https://www.test.com", &body, "fake_extension").unwrap();

    assert!(output.is_empty());
}

#[test]
fn collector_keeps_document_order_and_resolves_relative_hrefs() {
    let body = "<html><body><a href=\"https://h/f.pdf\">one</a><a href=\"/r/f2.pdf\">two</a><a href=\"g.txt\">three</a></body></html>";

    let output = get_all_files_links("https://h", body, "pdf").unwrap();

    assert_eq!(
        output,
        vec!["https://h/f.pdf".to_string(), "https://h/r/f2.pdf".to_string()]
    );
}

#[test]
fn collector_is_idempotent_on_unchanged_page_and_filter() {
    let body = get_fake_links_for_test("https://www.test.com");

    let first = get_all_files_links("https://www.test.com", &body, "pdf").unwrap();
    let second = get_all_files_links("https://www.test.com", &body, "pdf").unwrap();

    assert_eq!(first, second);
}

#[test]
fn collector_rejects_unparseable_base_url() {
    let body = get_fake_links_for_test("invalid_url");
    let output = get_all_files_links("invalid_url", &body, "pdf");

    assert!(matches!(output, Err(FetchError::UrlParse)));
}

#[test]
fn collector_rejects_base_url_without_host() {
    let body = "<a href=\"/a.pdf\">a</a>";
    let output = get_all_files_links("mailto:someone@test.com", body, "pdf");

    assert!(matches!(output, Err(FetchError::UrlParse)));
}

#[test]
fn collector_uses_parsed_scheme_not_raw_base_text() {
    let body = "<a href=\"/r/f2.pdf\">two</a>";

    let output = get_all_files_links("HTTPS://WWW.TEST.COM", body, "pdf").unwrap();

    assert_eq!(output, vec!["https://www.test.com/r/f2.pdf".to_string()]);
}

#[test]
fn collector_preserves_duplicates_and_ignores_missing_hrefs() {
    let body = "<a href=\"https://h/f.pdf\">one</a><a>no target</a><a href=\"https://h/f.pdf\">again</a>";

    let output = get_all_files_links("https://h", body, "pdf").unwrap();

    assert_eq!(
        output,
        vec!["https://h/f.pdf".to_string(), "https://h/f.pdf".to_string()]
    );
}

#[test]
fn extension_filter_is_an_exact_suffix_without_dot_normalization() {
    let body = "<a href=\"https://h/a.pdf\">dotted</a><a href=\"https://h/apdf\">dotless</a>";

    let with_dot = get_all_files_links("https://h", body, ".pdf").unwrap();
    let without_dot = get_all_files_links("https://h", body, "pdf").unwrap();

    assert_eq!(with_dot, vec!["https://h/a.pdf".to_string()]);
    assert_eq!(
        without_dot,
        vec!["https://h/a.pdf".to_string(), "https://h/apdf".to_string()]
    );
}
