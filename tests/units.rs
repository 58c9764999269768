use rustdok::service::S3Service;

#[test]
fn test_validate_bucket_name() {
    let result = S3Service::validate_bucket_name("bucket1");
    assert!(result.is_ok(), "Valid bucket name should pass validation");

    let result = S3Service::validate_bucket_name("b1");
    assert!(result.is_err(), "Bucket name that's too short should fail validation");
    if let Err(error_msg) = result {
        assert!(error_msg.contains("between 3 and 63 characters"),
                "Error message should mention length requirements");
    }

    let long_name = "a".repeat(64);
    let result = S3Service::validate_bucket_name(&long_name);
    assert!(result.is_err(), "Bucket name that's too long should fail validation");
    if let Err(error_msg) = result {
        assert!(error_msg.contains("between 3 and 63 characters"),
                "Error message should mention length requirements");
    }

    let result = S3Service::validate_bucket_name("Bucket1");
    assert!(result.is_err(), "Bucket name with invalid characters should fail validation");
    if let Err(error_msg) = result {
        assert!(error_msg.contains("can only contain lowercase"),
                "Error message should mention character requirements");
    }

    let result = S3Service::validate_bucket_name("-bucket1");
    assert!(result.is_err(), "Bucket name with invalid start should fail validation");
    if let Err(error_msg) = result {
        assert!(error_msg.contains("must begin with a letter or number"),
                "Error message should mention start requirements");
    }

    let result = S3Service::validate_bucket_name("bucket1-");
    assert!(result.is_err(), "Bucket name with invalid end should fail validation");
    if let Err(error_msg) = result {
        assert!(error_msg.contains("must end with a letter or number"),
                "Error message should mention end requirements");
    }
}

fn is_valid_bucket_name(name: &str) -> bool {
    !name.is_empty() && name.len() <= 63
}

#[test]
fn test_delete_bucket_validation() {
    let bucket_name = "";
    assert!(!is_valid_bucket_name(bucket_name), "Empty bucket name should be invalid");

    let bucket_name = "bucket1";
    assert!(is_valid_bucket_name(bucket_name), "Valid bucket name should be valid");
}

#[test]
fn test_list_buckets_parsing() {
    let bucket_names = vec!["bucket1".to_string(), "bucket2".to_string(), "bucket3".to_string()];

    assert_eq!(bucket_names.len(), 3, "Expected 3 bucket names");
    assert!(bucket_names.contains(&"bucket1".to_string()), "Expected bucket1 to be in the list");
    assert!(bucket_names.contains(&"bucket2".to_string()), "Expected bucket2 to be in the list");
    assert!(bucket_names.contains(&"bucket3".to_string()), "Expected bucket3 to be in the list");
}

fn normalize_object_key(key: &str) -> String {
    let mut normalized = key.to_string();
    while normalized.starts_with('/') {
        normalized = normalized[1..].to_string();
    }
    while normalized.contains("//") {
        normalized = normalized.replace("//", "/");
    }
    normalized = normalized.replace("/./", "/");
    normalized = normalized.replace("./", "");
    normalized
}

#[test]
fn test_object_key_normalization() {
    let key1 = "/test.pdf";
    let normalized1 = normalize_object_key(key1);
    assert!(normalized1.starts_with('/') == false, "Normalized key should not start with a slash");
    assert!(normalized1.ends_with("test.pdf"), "Normalized key should end with the original filename");

    let key2 = "folder//test.pdf";
    let normalized2 = normalize_object_key(key2);
    assert!(!normalized2.contains("//"), "Normalized key should not contain double slashes");

    let key3 = "test.pdf";
    let normalized3 = normalize_object_key(key3);
    assert_eq!(normalized3, "test.pdf", "Simple key should remain unchanged");

    let key4 = "./test.pdf";
    let normalized4 = normalize_object_key(key4);
    assert!(!normalized4.starts_with("./"), "Normalized key should not start with ./");
}

fn paginate_objects(objects: &[String], continuation_token: Option<String>, max_keys: usize) -> (Vec<String>, Option<String>) {
    let start_index = if let Some(token) = continuation_token {
        token.parse::<usize>().unwrap_or(0)
    } else {
        0
    };
    let end_index = std::cmp::min(start_index + max_keys, objects.len());
    let page = objects[start_index..end_index].to_vec();
    let next_token = if end_index < objects.len() {
        Some(end_index.to_string())
    } else {
        None
    };
    (page, next_token)
}

#[test]
fn test_object_listing_pagination() {
    let objects = (1..=20).map(|i| format!("object{}.txt", i)).collect::<Vec<_>>();

    let (page1, next_token1) = paginate_objects(&objects, None, 5);
    assert_eq!(page1.len(), 5, "First page should have 5 objects");
    assert_eq!(page1[0], "object1.txt");
    assert_eq!(page1[4], "object5.txt");
    assert!(next_token1.is_some(), "Should have a next token");

    let (page2, next_token2) = paginate_objects(&objects, next_token1, 5);
    assert_eq!(page2.len(), 5, "Second page should have 5 objects");
    assert_eq!(page2[0], "object6.txt");
    assert_eq!(page2[4], "object10.txt");
    assert!(next_token2.is_some(), "Should have a next token");

    let (page4, next_token4) = paginate_objects(&objects, Some("15".to_string()), 5);
    assert_eq!(page4.len(), 5, "Last page should have 5 objects");
    assert_eq!(page4[0], "object16.txt");
    assert_eq!(page4[4], "object20.txt");
    assert!(next_token4.is_none(), "Should not have a next token");

    let (page_large, next_token_large) = paginate_objects(&objects, Some("15".to_string()), 10);
    assert_eq!(page_large.len(), 5, "Page should have 5 objects");
    assert!(next_token_large.is_none(), "Should not have a next token");
}

fn detect_content_type(key: &str) -> &'static str {
    if key.ends_with(".pdf") {
        "application/pdf"
    } else if key.ends_with(".jpg") || key.ends_with(".jpeg") {
        "image/jpeg"
    } else if key.ends_with(".png") {
        "image/png"
    } else if key.ends_with(".txt") {
        "text/plain"
    } else if key.ends_with(".html") || key.ends_with(".htm") {
        "text/html"
    } else if key.ends_with(".json") {
        "application/json"
    } else {
        "application/octet-stream"
    }
}

#[test]
fn test_content_type_detection() {
    assert_eq!(detect_content_type("document.pdf"), "application/pdf");
    assert_eq!(detect_content_type("image.jpg"), "image/jpeg");
    assert_eq!(detect_content_type("image.png"), "image/png");
    assert_eq!(detect_content_type("document.txt"), "text/plain");
    assert_eq!(detect_content_type("document.html"), "text/html");
    assert_eq!(detect_content_type("document.json"), "application/json");

    assert_eq!(detect_content_type("unknown"), "application/octet-stream");

    assert_eq!(detect_content_type("no-extension"), "application/octet-stream");
}

fn is_valid_object_key(key: &str) -> bool {
    if key.is_empty() {
        return false;
    }
    if key.contains("//") {
        return false;
    }
    if key.ends_with('/') {
        return false;
    }
    if key.contains("..") {
        return false;
    }
    if key.contains('\0') {
        return false;
    }
    true
}

#[test]
fn test_object_key_validation() {
    let valid_keys = vec![
        "test.pdf",
        "images/test.jpg",
        "backups/test.zip",
        "test-with-dash",
        "test_with_underscores",
        "test.with.dots",
    ];
    for key in valid_keys {
        assert!(is_valid_object_key(key), "Key '{}' should be valid", key);
    }

    let invalid_keys = vec![
        "",
        "//double-slashes",
        "test-with-trailing-slash/",
        "../test",
        "test-with-\0-null-char",
    ];
    for key in invalid_keys {
        assert!(!is_valid_object_key(key), "Key '{}' should be invalid", key);
    }
}
