use rustle::target::ValidUrl;

#[test]
fn accepts_absolute_url() {
    let u = ValidUrl::new("https://example.com/files/data.bin").unwrap();
    assert_eq!(u.as_str(), "https://example.com/files/data.bin");
    assert_eq!(u.last_path_segment(), Some("data.bin"));
}

#[test]
fn rejects_relative_and_garbage() {
    assert!(ValidUrl::new("not a url").is_err());
    assert!(ValidUrl::new("/relative/path").is_err());
    assert!(ValidUrl::new("").is_err());
}

#[test]
fn normalizes_parsed_url() {
    let u = ValidUrl::new("HTTPS://EXAMPLE.COM").unwrap();
    assert_eq!(u.as_str(), "https://example.com/");
}

#[test]
fn last_segment_of_bare_host_is_empty() {
    let u = ValidUrl::new("https://example.com").unwrap();
    assert_eq!(u.last_path_segment(), Some(""));
}

#[test]
fn serialization_reparses_to_an_equal_url() {
    let v = ValidUrl::new("HTTPS://EXAMPLE.COM/Files/../data.bin?q=1").unwrap();
    let w = ValidUrl::new(v.as_str()).unwrap();
    assert_eq!(w.as_str(), v.as_str());
    assert_eq!(w.last_path_segment(), v.last_path_segment());
}

#[test]
fn clone_preserves_url() {
    let u = ValidUrl::new("https://example.com/a/b").unwrap();
    let v = u.clone();
    assert_eq!(v.as_str(), u.as_str());
    assert_eq!(v.last_path_segment(), u.last_path_segment());
}
