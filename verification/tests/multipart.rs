use cockpit_core::json::{json_to_vec, JsonValue};
use cockpit_core::multipart::{
    build_images_edit_request_from_multipart, detect_image_mime_type, extract_multipart_boundary,
    find_subslice, multipart_field_bool, multipart_field_number, multipart_field_value,
    multipart_file_to_data_url, parse_content_disposition_params, parse_i64,
    parse_multipart_form_data, trim_part_trailing_newline, MultipartFilePart,
};

fn to_serde(value: &JsonValue) -> serde_json::Value {
    serde_json::from_slice(&json_to_vec(value).unwrap()).unwrap()
}

fn form_body() -> Vec<u8> {
    let mut body = Vec::new();
    body.extend_from_slice(b"preamble\r\n--XyZ\r\n");
    body.extend_from_slice(b"Content-Disposition: form-data; name=\"prompt\"\r\n\r\n  a red fox  \r\n");
    body.extend_from_slice(b"--XyZ\r\n");
    body.extend_from_slice(b"Content-Disposition: form-data; name=\"stream\"\r\n\r\nYes\r\n");
    body.extend_from_slice(b"--XyZ\r\n");
    body.extend_from_slice(b"Content-Disposition: form-data; name=\"size\"\r\n\r\n1024x1024\r\n");
    body.extend_from_slice(b"--XyZ\r\n");
    body.extend_from_slice(b"Content-Disposition: form-data; name=\"partial_images\"\r\n\r\n2\r\n");
    body.extend_from_slice(b"--XyZ\r\n");
    body.extend_from_slice(b"Content-Disposition: form-data; name=\"image[]\"; filename=\"a.png\"\r\nContent-Type: application/octet-stream\r\n\r\n");
    body.extend_from_slice(b"\x89PNG\r\n\x1a\nDATA\r\n");
    body.extend_from_slice(b"--XyZ\r\n");
    body.extend_from_slice(b"Content-Disposition: form-data; name=\"mask\"; filename=\"m.png\"\r\nContent-Type: image/png\r\n\r\n");
    body.extend_from_slice(b"MASK\r\n");
    body.extend_from_slice(b"--XyZ\r\n");
    body.extend_from_slice(b"no head here\r\n");
    body.extend_from_slice(b"--XyZ--\r\n");
    body
}

#[test]
fn finds_byte_sequences() {
    assert_eq!(find_subslice(b"abcabc", b"ca"), Some(2));
    assert_eq!(find_subslice(b"abc", b""), Some(0));
    assert_eq!(find_subslice(b"abc", b"abcd"), None);
    assert_eq!(find_subslice(b"", b"a"), None);
}

#[test]
fn reads_the_boundary_of_a_content_type() {
    assert_eq!(
        extract_multipart_boundary("multipart/form-data; boundary=----WebKitFormBoundary7MA4").as_deref(),
        Some("----WebKitFormBoundary7MA4")
    );
    assert_eq!(extract_multipart_boundary("multipart/form-data; BOUNDARY = \"q\"").as_deref(), Some("q"));
    assert_eq!(extract_multipart_boundary("multipart/form-data; boundary=\"\"; boundary=b").as_deref(), Some("b"));
    assert_eq!(extract_multipart_boundary("multipart/form-data"), None);
}

#[test]
fn reads_content_disposition_parameters() {
    let params = parse_content_disposition_params("form-data; Name=\"image\"; filename=a.png; junk; =x");
    assert_eq!(
        params,
        vec![("name".to_string(), "image".to_string()), ("filename".to_string(), "a.png".to_string())]
    );
}

#[test]
fn trims_one_trailing_line_break() {
    assert_eq!(trim_part_trailing_newline(b"ab\r\n\r\n"), b"ab\r\n");
    assert_eq!(trim_part_trailing_newline(b"ab\n"), b"ab");
    assert_eq!(trim_part_trailing_newline(b"ab"), b"ab");
}

#[test]
fn detects_image_types_by_magic_bytes() {
    assert_eq!(detect_image_mime_type(b"\x89PNG\r\n\x1a\nrest", ""), "image/png");
    assert_eq!(detect_image_mime_type(b"\xff\xd8\xff\xe0", "application/octet-stream"), "image/jpeg");
    assert_eq!(detect_image_mime_type(b"RIFF\0\0\0\0WEBPVP8", " "), "image/webp");
    assert_eq!(detect_image_mime_type(b"GIF89a...", ""), "image/gif");
    assert_eq!(detect_image_mime_type(b"????", ""), "application/octet-stream");
    assert_eq!(detect_image_mime_type(b"\x89PNG\r\n\x1a\n", " image/x-custom "), "image/x-custom");
}

#[test]
fn parses_integers_like_std() {
    for text in ["0", "-0", "+7", "-9223372036854775808", "9223372036854775807", "9223372036854775808",
        "-", "+", "", "12a", " 1"]
    {
        let chars: Vec<char> = text.chars().collect();
        assert_eq!(parse_i64(&chars), text.parse::<i64>().ok(), "{}", text);
    }
}

#[test]
fn parses_multipart_fields_and_files() {
    let form = parse_multipart_form_data("multipart/form-data; boundary=XyZ", &form_body()).unwrap();
    assert_eq!(multipart_field_value(&form, "prompt").as_deref(), Some("a red fox"));
    assert!(multipart_field_bool(&form, "stream", false));
    assert!(!multipart_field_bool(&form, "missing", false));
    assert!(multipart_field_number(&form, "partial_images").is_some());
    assert!(multipart_field_number(&form, "size").is_none());
    assert_eq!(form.files.len(), 2);
    assert_eq!(form.files[0].name, "image[]");
    assert_eq!(form.files[0].data, b"\x89PNG\r\n\x1a\nDATA".to_vec());
    assert_eq!(form.files[1].content_type, "image/png");
    assert_eq!(
        parse_multipart_form_data("multipart/form-data", b"").err().as_deref(),
        Some("multipart/form-data 缺少 boundary")
    );
}

#[test]
fn later_field_values_win() {
    let body = b"--b\r\nContent-Disposition: form-data; name=\"model\"\r\n\r\nfirst\r\n--b\r\nContent-Disposition: form-data; name=\"model\"\r\n\r\nsecond\r\n--b--";
    let form = parse_multipart_form_data("multipart/form-data; boundary=b", body).unwrap();
    assert_eq!(multipart_field_value(&form, "model").as_deref(), Some("second"));
}

#[test]
fn files_become_data_urls() {
    let file = MultipartFilePart {
        name: "image".to_string(),
        content_type: String::new(),
        data: b"GIF87a".to_vec(),
    };
    assert_eq!(multipart_file_to_data_url(&file), "data:image/gif;base64,R0lGODdh");
}

#[test]
fn builds_images_edit_request_from_multipart_form() {
    let (body, stream, format) =
        build_images_edit_request_from_multipart("multipart/form-data; boundary=XyZ", &form_body()).unwrap();
    assert!(stream);
    assert_eq!(format, "b64_json");
    let value = to_serde(&body);
    let content = &value["input"][0]["content"];
    assert_eq!(content[0]["text"], "a red fox");
    assert_eq!(content[1]["image_url"], "data:image/png;base64,iVBORw0KGgpEQVRB");
    let tool = &value["tools"][0];
    assert_eq!(tool["action"], "edit");
    assert_eq!(tool["model"], "gpt-image-2");
    assert_eq!(tool["size"], "1024x1024");
    assert_eq!(tool["partial_images"], 2);
    assert_eq!(tool["input_image_mask"]["image_url"], "data:image/png;base64,TUFTSw==");

    let no_image = b"--b\r\nContent-Disposition: form-data; name=\"prompt\"\r\n\r\nx\r\n--b--";
    assert_eq!(
        build_images_edit_request_from_multipart("multipart/form-data; boundary=b", no_image).err().as_deref(),
        Some("images/edits 请求缺少 image")
    );
    let no_prompt = b"--b\r\nContent-Disposition: form-data; name=\"image\"; filename=\"x\"\r\n\r\nx\r\n--b--";
    assert_eq!(
        build_images_edit_request_from_multipart("multipart/form-data; boundary=b", no_prompt).err().as_deref(),
        Some("images/edits 请求缺少 prompt")
    );
}
