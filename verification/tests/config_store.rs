use esp_iot::config_store::{decode_config, encode_config};
use esp_iot::shared::WifiConfig;

fn config(ssid: &str, password: &str) -> WifiConfig {
    WifiConfig {
        ssid: heapless::String::try_from(ssid).unwrap(),
        password: heapless::String::try_from(password).unwrap(),
    }
}

#[test]
fn encoding_is_postcard_layout() {
    let text = encode_config(&config("ab", "xyz"));
    assert_eq!(text.as_bytes(), &[2, b'a', b'b', 3, b'x', b'y', b'z']);
}

#[test]
fn stored_config_reads_back() {
    for (s, p) in [("home", "secret"), ("", ""), ("é-net", "pässwörd"), (&*"a".repeat(32), &*"b".repeat(64))] {
        let text = encode_config(&config(s, p));
        let back = decode_config(&text).unwrap();
        assert_eq!(back.ssid.as_str(), s);
        assert_eq!(back.password.as_str(), p);
    }
}

#[test]
fn garbage_does_not_load() {
    assert!(decode_config("").is_none());
    assert!(decode_config("\u{5}ab").is_none());
}

#[test]
fn overlong_name_does_not_load() {
    let mut stored = String::new();
    stored.push(33 as char);
    stored.push_str(&"a".repeat(33));
    stored.push(1 as char);
    stored.push('p');
    assert!(decode_config(&stored).is_none());
}

#[test]
fn truncated_text_does_not_load() {
    let text = encode_config(&config("home", "secret"));
    for cut in 0..text.len() {
        assert!(decode_config(&text[..cut]).is_none());
    }
    let mut longer = text.clone();
    longer.push_str("trailing");
    let back = decode_config(&longer).unwrap();
    assert_eq!(back.ssid.as_str(), "home");
    assert_eq!(back.password.as_str(), "secret");
}

#[test]
fn longer_length_varint_is_never_a_stored_text() {
    // 2 written as a two-byte varint (0x82 0x00): postcard reads it as 2
    let bytes = [0x82u8, 0x00, b'a', b'b', 1, b'p'];
    let stored = std::str::from_utf8(&bytes);
    // 0x82 is not UTF-8 on its own, so such bytes are never a stored text
    assert!(stored.is_err());
}

#[test]
fn over_capacity_does_not_load() {
    let mut stored = String::new();
    stored.push(1 as char);
    stored.push('a');
    stored.push(65 as char);
    stored.push_str(&"b".repeat(65));
    assert!(decode_config(&stored).is_none());
    let mut fits = String::new();
    fits.push(1 as char);
    fits.push('a');
    fits.push(64 as char);
    fits.push_str(&"b".repeat(64));
    assert_eq!(decode_config(&fits).unwrap().password.as_str(), "b".repeat(64));
}
