use websocket_relay::parse_original_client_ip;

#[test]
fn parses_single_ip_from_xff_header() {
    let xff = "192.168.1.100";
    let result = parse_original_client_ip(xff);
    assert_eq!(result, Some("192.168.1.100".to_string()));
}

#[test]
fn parses_first_ip_from_xff_chain() {
    let xff = "203.0.113.195, 198.51.100.178, 192.168.1.1";
    let result = parse_original_client_ip(xff);
    assert_eq!(result, Some("203.0.113.195".to_string()));
}

#[test]
fn handles_ipv6_addresses() {
    let xff = "2001:db8:85a3:8d3:1319:8a2e:370:7348, 192.168.1.1";
    let result = parse_original_client_ip(xff);
    assert_eq!(
        result,
        Some("2001:db8:85a3:8d3:1319:8a2e:370:7348".to_string())
    );
}

#[test]
fn trims_whitespace_around_ips() {
    let xff = "  192.168.1.100  , 10.0.0.1  ";
    let result = parse_original_client_ip(xff);
    assert_eq!(result, Some("192.168.1.100".to_string()));
}

#[test]
fn returns_none_for_empty_header() {
    let xff = "";
    let result = parse_original_client_ip(xff);
    assert_eq!(result, None);
}

#[test]
fn returns_none_for_whitespace_only() {
    let xff = "   ";
    let result = parse_original_client_ip(xff);
    assert_eq!(result, None);
}

#[test]
fn handles_single_comma() {
    let xff = "192.168.1.100,";
    let result = parse_original_client_ip(xff);
    assert_eq!(result, Some("192.168.1.100".to_string()));
}

#[test]
fn returns_none_where_the_first_part_is_blank() {
    assert_eq!(parse_original_client_ip(",10.0.0.1"), None);
    assert_eq!(parse_original_client_ip(" \t , 10.0.0.1"), None);
    assert_eq!(parse_original_client_ip(","), None);
}

#[test]
fn keeps_white_space_inside() {
    assert_eq!(
        parse_original_client_ip("\ta b \u{3000}, c"),
        Some("a b".to_string())
    );
}

#[test]
fn keeps_text_beyond_ascii() {
    assert_eq!(
        parse_original_client_ip("\u{2003}h\u{f6}st \u{1f600}\u{a0},x"),
        Some("h\u{f6}st \u{1f600}".to_string())
    );
}

#[test]
fn later_proxies_do_not_matter() {
    for header in ["10.0.0.1", " a , b", "", ",", "  "] {
        let longer = format!("{header}, 10.9.8.7");
        assert_eq!(
            parse_original_client_ip(&longer),
            parse_original_client_ip(header)
        );
    }
}

#[test]
fn reading_twice_changes_nothing() {
    let once = parse_original_client_ip("  10.0.0.1 , x").unwrap();
    assert_eq!(parse_original_client_ip(&once), Some(once.clone()));
}

#[test]
fn white_space_is_that_of_unicode() {
    for c in '\u{0}'..=char::MAX {
        if c != ',' {
            let header = format!("{c}x{c}");
            let trimmed = header.trim().to_string();
            assert_eq!(parse_original_client_ip(&header), Some(trimmed));
        }
    }
}

#[test]
fn white_space_is_the_known_list() {
    let blank: Vec<u32> = ('\u{0}'..=char::MAX)
        .filter(|c| parse_original_client_ip(&c.to_string()).is_none() && *c != ',')
        .map(|c| c as u32)
        .collect();
    assert_eq!(
        blank,
        vec![
            0x09, 0x0a, 0x0b, 0x0c, 0x0d, 0x20, 0x85, 0xa0, 0x1680, 0x2000, 0x2001, 0x2002,
            0x2003, 0x2004, 0x2005, 0x2006, 0x2007, 0x2008, 0x2009, 0x200a, 0x2028, 0x2029,
            0x202f, 0x205f, 0x3000
        ]
    );
}
