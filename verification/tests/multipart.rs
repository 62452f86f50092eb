use actix_web_multipart_test::TestMultipartBuilder;

/// The boundary part of a returned content-type header value.
fn boundary_of(content_type: &str) -> String {
    let prefix = "multipart/form-data; boundary=";
    assert!(content_type.starts_with(prefix));
    content_type[prefix.len()..].to_string()
}

#[test]
fn content_type_has_fixed_prefix_and_boundary() {
    let builder = TestMultipartBuilder::new();
    let boundary = builder.boundary().to_string();
    let (content_type, _) = builder.build();
    assert_eq!(
        content_type,
        format!("multipart/form-data; boundary={}", boundary)
    );
}

#[test]
fn boundary_is_hyphenated_hex() {
    let builder = TestMultipartBuilder::new();
    let boundary = builder.boundary();
    assert_eq!(boundary.len(), 36);
    assert!(boundary
        .chars()
        .all(|c| c == '-' || c.is_ascii_digit() || ('a'..='f').contains(&c)));
}

#[test]
fn empty_collection_yields_closing_delimiter_only() {
    let (content_type, body) = TestMultipartBuilder::new().build();
    let boundary = boundary_of(&content_type);
    assert_eq!(body, format!("--{}--\r\n", boundary).into_bytes());
}

#[test]
fn default_builder_is_empty() {
    let (content_type, body) = TestMultipartBuilder::default().build();
    let boundary = boundary_of(&content_type);
    assert_eq!(body, format!("--{}--\r\n", boundary).into_bytes());
}

#[test]
fn concrete_scenario_text_then_bytes() {
    let builder = TestMultipartBuilder::new()
        .with_text("field1", "hello")
        .with_bytes("file1", "a.txt", "text/plain", b"data".to_vec());
    let (content_type, body) = builder.build();
    let b1 = boundary_of(&content_type);
    let expected = format!(
        "--{b}\r\nContent-Disposition: form-data; name=\"field1\"\r\nContent-Type: text/plain\r\n\r\nhello\r\n--{b}\r\nContent-Disposition: form-data; name=\"file1\"; filename=\"a.txt\"\r\nContent-Type: text/plain\r\n\r\ndata\r\n--{b}--\r\n",
        b = b1
    );
    assert_eq!(body, expected.into_bytes());
    assert_eq!(content_type, format!("multipart/form-data; boundary={}", b1));
}

#[test]
fn boundaries_are_unique_across_constructions() {
    let mut seen = std::collections::HashSet::new();
    for _ in 0..10_000 {
        let builder = TestMultipartBuilder::new();
        assert!(seen.insert(builder.boundary().to_string()));
    }
    assert_eq!(seen.len(), 10_000);
}

#[test]
fn parts_appear_in_call_order() {
    let json = serde_json::Value::Bool(true);
    let builder = TestMultipartBuilder::new()
        .with_bytes("zeta", "z.bin", "application/octet-stream", vec![1u8, 2, 3])
        .with_text("alpha", "first")
        .with_json("mid", &json)
        .unwrap()
        .with_text("omega", "last");
    let (_, body) = builder.build();
    let text = String::from_utf8_lossy(&body).into_owned();
    let zeta = text.find("name=\"zeta\"").unwrap();
    let alpha = text.find("name=\"alpha\"").unwrap();
    let mid = text.find("name=\"mid\"").unwrap();
    let omega = text.find("name=\"omega\"").unwrap();
    assert!(zeta < alpha && alpha < mid && mid < omega);
}

#[test]
fn json_scenario_object_part() {
    let mut map = serde_json::Map::new();
    map.insert(
        "name".to_string(),
        serde_json::Value::String("X".to_string()),
    );
    let value = serde_json::Value::Object(map);
    let builder = TestMultipartBuilder::new()
        .with_json("json", &value)
        .unwrap();
    let (content_type, body) = builder.build();
    let b = boundary_of(&content_type);
    let expected = format!(
        "--{b}\r\nContent-Disposition: form-data; name=\"json\"\r\nContent-Type: application/json\r\n\r\n{{\"name\":\"X\"}}\r\n--{b}--\r\n",
        b = b
    );
    assert_eq!(body, expected.into_bytes());
}

#[test]
fn text_part_uses_text_plain_and_no_filename() {
    let (content_type, body) = TestMultipartBuilder::new()
        .with_text("greeting", "hi there")
        .build();
    let b = boundary_of(&content_type);
    let expected = format!(
        "--{b}\r\nContent-Disposition: form-data; name=\"greeting\"\r\nContent-Type: text/plain\r\n\r\nhi there\r\n--{b}--\r\n",
        b = b
    );
    assert_eq!(body, expected.into_bytes());
}

#[test]
fn content_bytes_are_embedded_verbatim() {
    let payload: Vec<u8> = vec![0u8, 255, 13, 10, 13, 10, 45, 45, 7];
    let (content_type, body) = TestMultipartBuilder::new()
        .with_bytes("file", "raw.bin", "application/octet-stream", payload.clone())
        .build();
    let b = boundary_of(&content_type);
    let mut expected = format!(
        "--{b}\r\nContent-Disposition: form-data; name=\"file\"; filename=\"raw.bin\"\r\nContent-Type: application/octet-stream\r\n\r\n",
        b = b
    )
    .into_bytes();
    expected.extend_from_slice(&payload);
    expected.extend_from_slice(b"\r\n");
    expected.extend_from_slice(format!("--{}--\r\n", b).as_bytes());
    assert_eq!(body, expected);
}

#[test]
fn generic_add_part_is_embedded_as_given() {
    let (content_type, body) = TestMultipartBuilder::new()
        .with_part(
            "custom".to_string(),
            "application/x-custom".to_string(),
            Some("c.dat".to_string()),
            vec![9u8, 8, 7],
        )
        .build();
    let b = boundary_of(&content_type);
    let mut expected = format!(
        "--{b}\r\nContent-Disposition: form-data; name=\"custom\"; filename=\"c.dat\"\r\nContent-Type: application/x-custom\r\n\r\n",
        b = b
    )
    .into_bytes();
    expected.extend_from_slice(&[9u8, 8, 7]);
    expected.extend_from_slice(b"\r\n");
    expected.extend_from_slice(format!("--{}--\r\n", b).as_bytes());
    assert_eq!(body, expected);
}

/// Encodes two parts, then recovers them with a hand-rolled parse of the
/// produced body: the round trip gives back names, types, file names and
/// content unchanged.
#[test]
fn round_trip_recovers_parts() {
    let (content_type, body) = TestMultipartBuilder::new()
        .with_text("first", "one")
        .with_bytes("second", "b.bin", "application/octet-stream", vec![1u8, 2])
        .build();
    let b = boundary_of(&content_type);
    let text = String::from_utf8_lossy(&body).into_owned();
    let open = format!("--{}\r\n", b);
    let close = format!("--{}--\r\n", b);
    let sections: Vec<&str> = text.split(&open).collect();
    assert_eq!(sections[0], "");
    assert_eq!(sections.len(), 3);
    assert_eq!(
        sections[1],
        "Content-Disposition: form-data; name=\"first\"\r\nContent-Type: text/plain\r\n\r\none\r\n"
    );
    assert_eq!(
        sections[2],
        format!(
            "Content-Disposition: form-data; name=\"second\"; filename=\"b.bin\"\r\nContent-Type: application/octet-stream\r\n\r\n\u{1}\u{2}\r\n{}",
            close
        )
    );
}

#[test]
fn duplicate_names_are_kept_in_order() {
    let (_, body) = TestMultipartBuilder::new()
        .with_text("twin", "a")
        .with_text("twin", "b")
        .build();
    let text = String::from_utf8_lossy(&body).into_owned();
    let first = text.find("\r\n\r\na\r\n").unwrap();
    let second = text.find("\r\n\r\nb\r\n").unwrap();
    assert!(first < second);
    assert_eq!(text.matches("name=\"twin\"").count(), 2);
}

#[test]
fn empty_content_part_is_allowed() {
    let (content_type, body) = TestMultipartBuilder::new()
        .with_text("empty", "")
        .build();
    let b = boundary_of(&content_type);
    let expected = format!(
        "--{b}\r\nContent-Disposition: form-data; name=\"empty\"\r\nContent-Type: text/plain\r\n\r\n\r\n--{b}--\r\n",
        b = b
    );
    assert_eq!(body, expected.into_bytes());
}
