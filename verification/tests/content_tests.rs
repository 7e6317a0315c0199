use gitingest::content::decode_github_file_payload;
use gitingest::content::decode_gitlab_file_payload;
use gitingest::content::fence_tree;
use gitingest::content::format_file_content;
use gitingest::content::path_is_code;
use gitingest::errors::RepoError;

#[test]
fn github_payloads_decode_with_embedded_newlines() {
    // "hello world" in base64, split over lines as the API returns it.
    let payload = "aGVsbG8g\nd29ybGQ=\n";
    assert_eq!(decode_github_file_payload(payload).unwrap().as_str(), "hello world");
}

#[test]
fn github_payloads_that_are_not_base64_fail_as_parse_errors() {
    assert!(matches!(
        decode_github_file_payload("!!!not-base64!!!"),
        Err(RepoError::UpstreamParse(_))
    ));
}

#[test]
fn github_payloads_that_are_not_utf8_fail_as_parse_errors() {
    // 0xFF 0xFE is valid base64 content but not valid UTF-8.
    let payload = base64::encode([0xffu8, 0xfe]);
    assert!(matches!(
        decode_github_file_payload(payload.as_str()),
        Err(RepoError::UpstreamParse(_))
    ));
}

#[test]
fn gitlab_payloads_decode_under_the_declared_encoding() {
    let decoded = decode_gitlab_file_payload("aGVsbG8=".to_string(), "base64").unwrap();
    assert_eq!(decoded.as_str(), "hello");
    // Any other declared encoding passes the payload through.
    let decoded = decode_gitlab_file_payload("plain text".to_string(), "text").unwrap();
    assert_eq!(decoded.as_str(), "plain text");
    assert!(matches!(
        decode_gitlab_file_payload("???".to_string(), "base64"),
        Err(RepoError::UpstreamParse(_))
    ));
}

#[test]
fn source_files_are_fenced_with_their_extension() {
    assert_eq!(
        format_file_content("src/main.rs", "fn main() {}".to_string()).as_str(),
        "```rs\nfn main() {}\n```"
    );
    assert_eq!(
        format_file_content("notes.txt", "plain".to_string()).as_str(),
        "plain"
    );
    assert_eq!(
        format_file_content("config.yaml", "a: 1".to_string()).as_str(),
        "```yaml\na: 1\n```"
    );
}

#[test]
fn code_extension_recognition() {
    for p in ["a.rs", "a.js", "a.py", "a.go", "a.java", "a.c", "a.cpp", "a.h", "a.ts", "a.sh",
        "a.json", "a.yaml", "a.yml", "a.toml", "a.md"]
    {
        assert!(path_is_code(p), "{p} should count as code");
    }
    for p in ["a.txt", "a.png", "Makefile", "rs", "a.rs.bak"] {
        assert!(!path_is_code(p), "{p} should not count as code");
    }
}

#[test]
fn trees_are_fenced_plainly() {
    assert_eq!(fence_tree("└── x\n").as_str(), "```\n└── x\n\n```");
}
