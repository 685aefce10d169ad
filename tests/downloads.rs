use webview_sessions::download::{
    download_destination, download_file_name, split_file_name, unique_download_path,
};

fn names(list: &[&str]) -> Vec<String> {
    list.iter().map(|s| s.to_string()).collect()
}

#[test]
fn unique_path_keeps_free_name() {
    assert_eq!(unique_download_path(&names(&["b.txt"]), "a.txt"), "a.txt");
    assert_eq!(unique_download_path(&names(&[]), "a.txt"), "a.txt");
}

#[test]
fn unique_path_skips_taken_numbers() {
    let existing = names(&["a.txt", "a (1).txt"]);
    assert_eq!(unique_download_path(&existing, "a.txt"), "a (2).txt");
}

#[test]
fn unique_path_first_number() {
    assert_eq!(unique_download_path(&names(&["report.pdf"]), "report.pdf"), "report (1).pdf");
}

#[test]
fn unique_path_takes_first_gap() {
    let existing = names(&["a.txt", "a (2).txt", "a (3).txt"]);
    assert_eq!(unique_download_path(&existing, "a.txt"), "a (1).txt");
}

#[test]
fn unique_path_many_taken() {
    let mut existing = names(&["x.bin"]);
    for i in 1..=11 {
        existing.push(format!("x ({}).bin", i));
    }
    assert_eq!(unique_download_path(&existing, "x.bin"), "x (12).bin");
}

#[test]
fn unique_path_without_extension() {
    assert_eq!(unique_download_path(&names(&["README"]), "README"), "README (1)");
}

#[test]
fn unique_path_hidden_file() {
    assert_eq!(unique_download_path(&names(&[".bashrc"]), ".bashrc"), ".bashrc (1)");
}

#[test]
fn unique_path_double_extension() {
    assert_eq!(unique_download_path(&names(&["a.tar.gz"]), "a.tar.gz"), "a.tar (1).gz");
}

#[test]
fn unique_path_non_ascii_name() {
    assert_eq!(unique_download_path(&names(&["报告.txt"]), "报告.txt"), "报告 (1).txt");
}

#[test]
fn split_names() {
    assert_eq!(split_file_name("a.txt"), ("a".to_string(), ".txt".to_string()));
    assert_eq!(split_file_name("archive"), ("archive".to_string(), String::new()));
    assert_eq!(split_file_name(".profile"), (".profile".to_string(), String::new()));
    assert_eq!(split_file_name("v1.2.zip"), ("v1.2".to_string(), ".zip".to_string()));
    assert_eq!(split_file_name("trailing."), ("trailing".to_string(), ".".to_string()));
}

#[test]
fn file_name_from_suggestion() {
    let r = download_file_name(Some("invoice.pdf".to_string()), "https://example.com/dl?id=3");
    assert_eq!(r, "invoice.pdf");
}

#[test]
fn file_name_from_url_segment() {
    assert_eq!(download_file_name(None, "https://example.com/files/data.csv"), "data.csv");
}

#[test]
fn file_name_strips_query() {
    assert_eq!(download_file_name(None, "https://example.com/files/data.csv?x=1&y=2"), "data.csv");
}

#[test]
fn file_name_falls_back() {
    assert_eq!(download_file_name(None, "https://example.com/files/"), "download");
    assert_eq!(download_file_name(None, "https://example.com/?q=1"), "download");
}

#[test]
fn destination_combines_name_and_snapshot() {
    let existing = names(&["data.csv"]);
    assert_eq!(download_destination(&existing, None, "https://example.com/data.csv"), "data (1).csv");
}
