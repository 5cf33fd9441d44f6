use component_service::model::ComponentId;
use component_service::service::bearer_token;

#[test]
fn identifier_text_is_hyphenated_lower_case() {
    assert_eq!(
        ComponentId(0xa1a2a3a4_b1b2_c1c2_d1d2_d3d4d5d6d7d8).to_string(),
        "a1a2a3a4-b1b2-c1c2-d1d2-d3d4d5d6d7d8"
    );
    assert_eq!(ComponentId(0).to_string(), "00000000-0000-0000-0000-000000000000");
    assert_eq!(ComponentId(u128::MAX).to_string(), "ffffffff-ffff-ffff-ffff-ffffffffffff");
    assert_eq!(ComponentId(0x1f).to_string(), "00000000-0000-0000-0000-00000000001f");
    assert_eq!(
        ComponentId(0x0123456789abcdef_0123456789abcdef).to_string(),
        "01234567-89ab-cdef-0123-456789abcdef"
    );
}

#[test]
fn identifier_text_follows_the_digit_formula() {
    let digits: Vec<char> = "0123456789abcdef".chars().collect();
    for value in [0u128, 1, 0xdead_beef, u128::MAX, 0x8000_0000_0000_0000_0000_0000_0000_0001] {
        let text: Vec<char> = ComponentId(value).to_string().chars().collect();
        assert_eq!(text.len(), 36);
        let mut k = 0;
        for (i, c) in text.iter().enumerate() {
            if i == 8 || i == 13 || i == 18 || i == 23 {
                assert_eq!(*c, '-');
            } else {
                let nibble = (value >> (4 * (31 - k))) & 0xf;
                assert_eq!(*c, digits[nibble as usize]);
                k += 1;
            }
        }
        assert_eq!(k, 32);
    }
}

#[test]
fn identifier_is_parsed_from_its_text() {
    assert_eq!(
        ComponentId::parse("a1a2a3a4-b1b2-c1c2-d1d2-d3d4d5d6d7d8"),
        Some(ComponentId(0xa1a2a3a4_b1b2_c1c2_d1d2_d3d4d5d6d7d8))
    );
    assert_eq!(
        ComponentId::parse("A1A2A3A4B1B2C1C2D1D2D3D4D5D6D7D8"),
        Some(ComponentId(0xa1a2a3a4_b1b2_c1c2_d1d2_d3d4d5d6d7d8))
    );
    assert_eq!(ComponentId::parse("not an identifier"), None);
    assert_eq!(ComponentId::parse(""), None);
    assert_eq!(ComponentId::parse("a1a2a3a4-b1b2-c1c2-d1d2-d3d4d5d6d7d"), None);
    for value in [0u128, 7, u128::MAX] {
        let id = ComponentId(value);
        assert_eq!(ComponentId::parse(&id.to_string()), Some(id));
    }
}

#[test]
fn bearer_token_carries_the_access_token() {
    assert_eq!(
        bearer_token(0x5c832d93_ff85_4a8f_9803_513950fdfdb1),
        "Bearer 5c832d93-ff85-4a8f-9803-513950fdfdb1"
    );
}
