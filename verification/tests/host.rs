use portpub::host::{extract_subdomain, find_host_line, read_host, RequestedHost, SubdomainError};

fn requested(request: &str) -> Option<Option<String>> {
    match read_host(request.as_bytes()) {
        RequestedHost::Missing => None,
        RequestedHost::NoSubdomain => Some(None),
        RequestedHost::Subdomain(name) => Some(Some(name)),
    }
}

#[test]
fn header_names_its_first_label() {
    assert_eq!(extract_subdomain("Host: abc12.port.pub"), Ok("abc12".to_string()));
    assert_eq!(extract_subdomain("host:abc12.port.pub"), Ok("abc12".to_string()));
    assert_eq!(extract_subdomain("HOST: \t abc12.port.pub:4321  "), Ok("abc12".to_string()));
    assert_eq!(extract_subdomain("a-b.port.pub"), Ok("a-b".to_string()));
}

#[test]
fn host_without_a_dot_is_a_label() {
    assert_eq!(extract_subdomain("Host: localserver"), Ok("localserver".to_string()));
    assert_eq!(extract_subdomain("Host: abc:80"), Ok("abc:80".to_string()));
}

#[test]
fn only_the_first_host_prefix_is_removed() {
    assert_eq!(extract_subdomain("Host: host:abc.port.pub"), Ok("host:abc".to_string()));
    assert_eq!(extract_subdomain("localhost:8080"), Ok("local8080".to_string()));
    assert_eq!(extract_subdomain("hohost:st:x.y"), Ok("host:x".to_string()));
}

#[test]
fn capitals_do_not_matter() {
    assert_eq!(extract_subdomain("Host: AbC12.Port.Pub"), Ok("abc12".to_string()));
    assert_eq!(extract_subdomain("Host: ÄB.port.pub"), Ok("äb".to_string()));
}

#[test]
fn missing_label_is_an_error() {
    assert_eq!(extract_subdomain(""), Err(SubdomainError::NoSubdomain));
    assert_eq!(extract_subdomain("Host:"), Err(SubdomainError::NoSubdomain));
    assert_eq!(extract_subdomain("Host:   \t"), Err(SubdomainError::NoSubdomain));
    assert_eq!(extract_subdomain("Host: .port.pub"), Err(SubdomainError::NoSubdomain));
    assert_eq!(SubdomainError::NoSubdomain.message(), "no subdomain exists");
}

#[test]
fn a_label_keeps_inner_white_space_and_has_no_dot() {
    assert_eq!(extract_subdomain("Host: a b .c"), Ok("a b ".to_string()));
    assert_eq!(extract_subdomain("Host: ..c"), Err(SubdomainError::NoSubdomain));
}

#[test]
fn white_space_is_that_of_unicode() {
    for code in 0..0x110000u32 {
        if let Some(c) = char::from_u32(code) {
            if code < 0x80 || c.is_whitespace() || (0x2000..0x3100).contains(&code) {
                let found = extract_subdomain(&format!("{c}{c}"));
                assert_eq!(found.is_err(), c.is_whitespace() || c == '.', "{code:x}");
            }
        }
    }
}

#[test]
fn listed_white_space_is_all_there_is() {
    let listed = |c: char| {
        matches!(c, '\u{9}'..='\u{d}' | ' ' | '\u{85}' | '\u{a0}' | '\u{1680}'
            | '\u{2000}'..='\u{200a}' | '\u{2028}' | '\u{2029}' | '\u{202f}' | '\u{205f}' | '\u{3000}')
    };
    for code in 0..0x110000u32 {
        if let Some(c) = char::from_u32(code) {
            assert_eq!(c.is_whitespace(), listed(c), "{code:x}");
        }
    }
}

#[test]
fn first_host_header_decides() {
    let request = "GET / HTTP/1.1\r\nAccept: */*\r\nhOsT: one.port.pub\r\nHost: two.port.pub\r\n\r\n";
    assert_eq!(requested(request), Some(Some("one".to_string())));
    assert_eq!(find_host_line(request), Some("hOsT: one.port.pub".to_string()));
}

#[test]
fn lines_end_with_line_feeds() {
    assert_eq!(find_host_line("x\nHost: a.b"), Some("Host: a.b".to_string()));
    assert_eq!(find_host_line("x\r\nHost: a.b\r"), Some("Host: a.b\r".to_string()));
    assert_eq!(find_host_line("x\r\n\r\nHost: a.b\r\n"), Some("Host: a.b".to_string()));
    assert_eq!(find_host_line("x\rHost: a.b"), None);
    assert_eq!(find_host_line(" Host: a.b\n"), None);
    assert_eq!(find_host_line(""), None);
    for text in ["", "\n", "\r\n", "a", "a\n", "a\r\n\nb\r", "a\n\r\nHost:x\r\r\n", "\rhost:\n"] {
        let expected = text.lines().find(|l| l.to_lowercase().starts_with("host:"));
        assert_eq!(find_host_line(text).as_deref(), expected, "{text:?}");
    }
}

#[test]
fn request_without_a_host_is_told_apart() {
    assert_eq!(requested("GET / HTTP/1.0\r\n\r\n"), None);
    assert_eq!(requested("GET / HTTP/1.1\r\nHost: .port.pub\r\n\r\n"), Some(None));
    assert_eq!(requested(""), None);
}

#[test]
fn messages_of_clients_name_no_host() {
    assert_eq!(requested("\"Hello\"\0"), None);
    assert_eq!(requested("{\"Accept\":\"00000000-0000-4000-8000-000000000000\"}\0"), None);
}

#[test]
fn malformed_bytes_are_repaired() {
    let mut request = b"GET /\xff HTTP/1.1\r\nHost: a".to_vec();
    request.extend_from_slice(b"\xfe.port.pub\r\n");
    assert!(matches!(read_host(&request), RequestedHost::Subdomain(name) if name == "a\u{fffd}"));
}

#[test]
fn characters_behind_the_first_ones_do_not_matter() {
    assert_eq!(find_host_line("X-Name: \u{e9}\nHOST: a.b"), Some("HOST: a.b".to_string()));
    assert_eq!(find_host_line("HoSt:\u{e9}"), Some("HoSt:\u{e9}".to_string()));
    assert_eq!(find_host_line("ghost:\u{e9}"), None);
    assert_eq!(extract_subdomain("Host: Abc12.\u{c9}.\u{3a3}"), Ok("abc12".to_string()));
    assert_eq!(extract_subdomain("hOST:\tABC12.\u{212a}"), Ok("abc12".to_string()));
}

#[test]
fn labels_have_no_capitals_and_start_with_no_white_space() {
    for code in 0..0x110000u32 {
        if let Some(c) = char::from_u32(code) {
            if let Ok(label) = extract_subdomain(&format!("Host: {c}Z{c}")) {
                assert!(!label.contains(|l: char| l.is_ascii_uppercase()), "{code:x}");
                assert!(!label.starts_with(char::is_whitespace), "{code:x}");
                assert!(!label.contains('.') && !label.is_empty(), "{code:x}");
            }
        }
    }
}

#[test]
fn front_in_ascii_is_lowercased_by_itself() {
    for code in 0x80..0x110000u32 {
        if let Some(c) = char::from_u32(code) {
            let label = extract_subdomain(&format!("Host: aZ-9{c}")).unwrap();
            assert!(label.starts_with("az-9"), "{code:x}");
        }
    }
}

#[test]
fn messages_beyond_ascii_name_no_host() {
    assert_eq!(requested("{\"Accept\":\"\u{e9}\"}"), None);
}
