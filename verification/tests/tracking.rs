use shipping::tracking::{create_tracking_id, tracking_id_text};
use std::collections::HashSet;

#[test]
fn tracking_text_of_given_identifiers() {
    assert_eq!(tracking_id_text(0), "00000000-0000-0000-0000-000000000000");
    assert_eq!(tracking_id_text(u128::MAX), "ffffffff-ffff-ffff-ffff-ffffffffffff");
    assert_eq!(
        tracking_id_text(0xa1a2a3a4_b1b2_c1c2_d1d2_d3d4d5d6d7d8),
        "a1a2a3a4-b1b2-c1c2-d1d2-d3d4d5d6d7d8"
    );
    assert_eq!(
        tracking_id_text(0x01234567_89ab_cdef_0123_456789abcdef),
        "01234567-89ab-cdef-0123-456789abcdef"
    );
    assert_eq!(tracking_id_text(1), "00000000-0000-0000-0000-000000000001");
    assert_eq!(tracking_id_text(1 << 127), "80000000-0000-0000-0000-000000000000");
}

#[test]
fn tracking_text_is_the_hyphenated_form_of_a_uuid() {
    let mut state: u128 = 0x0123_4567_89AB_CDEF_FEDC_BA98_7654_3210;
    let mut n = 0;
    while n < 5_000 {
        state = state.wrapping_mul(0x2360_ED05_1FC6_5DA4_4385_DF64_9FCC_F645).wrapping_add(n | 1);
        assert_eq!(tracking_id_text(state), uuid::Uuid::from_u128(state).to_string());
        n += 1;
    }
}

#[test]
fn tracking_text_differs_where_the_identifiers_differ() {
    let mut seen = HashSet::new();
    let mut bit = 0;
    while bit < 128 {
        assert!(seen.insert(tracking_id_text(1u128 << bit)));
        bit += 1;
    }
    assert!(seen.insert(tracking_id_text(0)));
    assert_eq!(seen.len(), 129);
}

#[test]
fn tracking_id_is_a_random_uuid_in_text() {
    let id = create_tracking_id();
    assert_eq!(id.len(), 36);
    let parsed = uuid::Uuid::parse_str(&id).unwrap();
    assert_eq!(parsed.get_version_num(), 4);
    assert_eq!(parsed.get_variant(), uuid::Variant::RFC4122);
    assert_eq!(parsed.to_string(), id);
    let chars: Vec<char> = id.chars().collect();
    assert_eq!(chars[14], '4');
    assert!(matches!(chars[19], '8' | '9' | 'a' | 'b'));
    for (i, c) in chars.iter().enumerate() {
        if i == 8 || i == 13 || i == 18 || i == 23 {
            assert_eq!(*c, '-');
        } else {
            assert!(matches!(*c, '0'..='9' | 'a'..='f'));
        }
    }
}

#[test]
fn ten_thousand_tracking_ids_are_all_different() {
    let mut seen = HashSet::new();
    let mut n = 0;
    while n < 10_000 {
        assert!(seen.insert(create_tracking_id()));
        n += 1;
    }
    assert_eq!(seen.len(), 10_000);
}
