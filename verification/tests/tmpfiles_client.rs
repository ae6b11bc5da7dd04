use upscale_pipeline::api::tmpfiles::{
    extract_download_link, upload_result, ApiResponse, ApiResponseDataField, LinkError,
    UploadError,
};

const PAGE: &str = "<html>\n<body>\n<h1>img.jpg</h1>\n<a class=\"download\" href=\"https://tmpfiles.org/dl/123/img.jpg\">Download</a>\n</body>\n</html>";

#[test]
fn download_link_is_fourth_quoted_field() {
    assert_eq!(
        extract_download_link(PAGE),
        Ok("https://tmpfiles.org/dl/123/img.jpg".to_string())
    );
}

#[test]
fn download_link_is_trimmed() {
    let page = "<a class=\"download\" href=\"  https://x/y.png \t\">go</a>";
    assert_eq!(extract_download_link(page), Ok("https://x/y.png".to_string()));
}

#[test]
fn download_link_first_matching_line_wins() {
    let page = "x\n<a class=\"download\" href=\"first\">\n<a class=\"download\" href=\"second\">";
    assert_eq!(extract_download_link(page), Ok("first".to_string()));
}

#[test]
fn download_link_missing_line() {
    assert_eq!(extract_download_link("<html></html>"), Err(LinkError::NoDownloadLine));
    assert_eq!(extract_download_link(""), Err(LinkError::NoDownloadLine));
}

#[test]
fn download_link_missing_href() {
    assert_eq!(
        extract_download_link("<p class=\"download\">x</p>"),
        Err(LinkError::NoDownloadHref)
    );
}

#[test]
fn download_link_has_no_quote_or_break() {
    let page = "<a class=\"download\" href=\"\">";
    assert_eq!(extract_download_link(page), Ok(String::new()));
}

fn reply(status: Option<&str>, url: Option<&str>) -> ApiResponse {
    ApiResponse {
        status: status.map(String::from),
        data: url.map(|u| ApiResponseDataField { url: u.to_string() }),
    }
}

#[test]
fn upload_success_gives_page_url() {
    assert_eq!(
        upload_result(reply(Some("success"), Some("https://tmpfiles.org/123/img.jpg"))),
        Ok("https://tmpfiles.org/123/img.jpg".to_string())
    );
}

#[test]
fn upload_without_status_is_invalid() {
    assert_eq!(
        upload_result(reply(None, Some("u"))),
        Err(UploadError::InvalidResponse(reply(None, Some("u"))))
    );
}

#[test]
fn upload_success_without_data_is_invalid() {
    assert_eq!(
        upload_result(reply(Some("success"), None)),
        Err(UploadError::InvalidResponse(reply(Some("success"), None)))
    );
}

#[test]
fn upload_other_status_failed() {
    assert_eq!(
        upload_result(reply(Some("error"), Some("u"))),
        Err(UploadError::RequestFailed(reply(Some("error"), Some("u"))))
    );
    assert_eq!(
        upload_result(reply(Some("Success"), Some("u"))),
        Err(UploadError::RequestFailed(reply(Some("Success"), Some("u"))))
    );
}

#[test]
fn link_error_messages() {
    assert_eq!(LinkError::NoDownloadLine.message(), "Could't find download link");
    assert_eq!(
        LinkError::NoDownloadHref.message(),
        "Found \"download class\" but could't find download link"
    );
}
