use auto_claude::domain::chat::mcp_read::{
    mcp_read_file_arguments, mcp_read_file_type, UNSUPPORTED_MCP_FILE_TYPE,
};

#[test]
fn file_type_is_the_lowercased_extension() {
    assert_eq!(mcp_read_file_type(Some("Report.PDF")).unwrap(), "pdf");
    assert_eq!(mcp_read_file_type(Some("archive.tar.GZ")).unwrap(), "gz");
    assert_eq!(mcp_read_file_type(Some("..a")).unwrap(), "a");
    assert_eq!(mcp_read_file_type(Some("name.")).unwrap(), "");
}

#[test]
fn files_without_an_extension_are_refused() {
    for name in [Some("README"), Some(".bashrc"), Some(".."), None] {
        assert_eq!(
            mcp_read_file_type(name).unwrap_err(),
            UNSUPPORTED_MCP_FILE_TYPE
        );
    }
    assert_eq!(
        UNSUPPORTED_MCP_FILE_TYPE,
        "Error: Unsupported file type for MCP read"
    );
}

#[test]
fn file_content_is_standard_base64() {
    let cases: [(&[u8], &str); 6] = [
        (b"", ""),
        (b"M", "TQ=="),
        (b"Ma", "TWE="),
        (b"Man", "TWFu"),
        (b"hello world", "aGVsbG8gd29ybGQ="),
        (&[0xfb, 0xff, 0xbf], "+/+/"),
    ];
    for (bytes, expected) in cases {
        let r = mcp_read_file_arguments("txt", &bytes.to_vec());
        assert_eq!(r.file_content, expected);
        assert_eq!(r.file_type, "txt");
    }
}
