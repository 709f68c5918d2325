use rustedjvm::constants::{
    decode_constant_pool, ClassConstant, ConstantPoolEntry, FieldRefConstant, MethodRefConstant,
    NameAndTypeConstant, StringConstant, Utf8Constant,
};
use rustedjvm::error::DecodeError;

#[test]
fn utf8_of_declared_length_advances_by_three_plus_length() {
    let bytes = vec![0x01u8, 0x00, 0x05, b'h', b'e', b'l', b'l', b'o', 0xff];
    let mut at = 0usize;
    let entry = Utf8Constant::from_bytecodes(&bytes, &mut at).unwrap();
    assert_eq!(entry.utf8_str, "hello");
    assert_eq!(entry.utf8_str.len(), 5);
    assert_eq!(at, 3 + 5);
}

#[test]
fn utf8_of_length_zero_is_the_empty_string() {
    let bytes = vec![0x01u8, 0x00, 0x00];
    let mut at = 0usize;
    let entry = Utf8Constant::from_bytecodes(&bytes, &mut at).unwrap();
    assert_eq!(entry.utf8_str, "");
    assert_eq!(at, 3);
}

#[test]
fn utf8_length_is_big_endian() {
    let mut bytes = vec![0x01u8, 0x01, 0x02];
    let mut i = 0;
    while i < 258 {
        bytes.push(b'a');
        i += 1;
    }
    bytes.push(b'b');
    let mut at = 0usize;
    let entry = Utf8Constant::from_bytecodes(&bytes, &mut at).unwrap();
    assert_eq!(entry.utf8_str.len(), 258);
    assert_eq!(at, 261);
}

#[test]
fn utf8_with_multibyte_characters_counts_bytes() {
    let text = "h\u{e9}\u{4e16}";
    let mut bytes = vec![0x01u8, 0x00, text.len() as u8];
    bytes.extend_from_slice(text.as_bytes());
    let mut at = 0usize;
    let entry = Utf8Constant::from_bytecodes(&bytes, &mut at).unwrap();
    assert_eq!(entry.utf8_str, text);
    assert_eq!(entry.utf8_str.len(), 6);
    assert_eq!(at, 9);
}

#[test]
fn utf8_that_is_not_valid_fails_and_keeps_the_cursor() {
    let bytes = vec![0x01u8, 0x00, 0x02, 0xc3, 0x28];
    let mut at = 0usize;
    assert_eq!(Utf8Constant::from_bytecodes(&bytes, &mut at), Err(DecodeError::InvalidUtf8));
    assert_eq!(at, 0);
}

#[test]
fn utf8_with_a_lone_continuation_byte_is_invalid() {
    let bytes = vec![0x01u8, 0x00, 0x01, 0x80];
    let mut at = 0usize;
    assert_eq!(Utf8Constant::from_bytecodes(&bytes, &mut at), Err(DecodeError::InvalidUtf8));
}

#[test]
fn utf8_with_a_surrogate_is_invalid() {
    let bytes = vec![0x01u8, 0x00, 0x03, 0xed, 0xa0, 0x80];
    let mut at = 0usize;
    assert_eq!(Utf8Constant::from_bytecodes(&bytes, &mut at), Err(DecodeError::InvalidUtf8));
}

#[test]
fn utf8_shorter_than_declared_is_truncated() {
    let bytes = vec![0x01u8, 0x00, 0x05, b'h', b'e'];
    let mut at = 0usize;
    assert_eq!(Utf8Constant::from_bytecodes(&bytes, &mut at), Err(DecodeError::Truncated));
    assert_eq!(at, 0);
}

#[test]
fn utf8_without_its_length_is_truncated() {
    let bytes = vec![0x01u8, 0x00];
    let mut at = 0usize;
    assert_eq!(Utf8Constant::from_bytecodes(&bytes, &mut at), Err(DecodeError::Truncated));
}

#[test]
fn class_constant_is_three_bytes() {
    let bytes = vec![0xaau8, 0x07, 0x01, 0x02, 0xbb];
    let mut at = 1usize;
    assert_eq!(ClassConstant::from_bytecodes(&bytes, &mut at), Ok(ClassConstant { name_idx: 258 }));
    assert_eq!(at, 4);
}

#[test]
fn class_constant_cut_short_is_truncated() {
    let bytes = vec![0x07u8, 0x01];
    let mut at = 0usize;
    assert_eq!(ClassConstant::from_bytecodes(&bytes, &mut at), Err(DecodeError::Truncated));
    assert_eq!(at, 0);
}

#[test]
fn string_constant_is_three_bytes() {
    let bytes = vec![0x08u8, 0x00, 0x11];
    let mut at = 0usize;
    assert_eq!(
        StringConstant::from_bytecodes(&bytes, &mut at),
        Ok(StringConstant { string_idx: 17 })
    );
    assert_eq!(at, 3);
}

#[test]
fn field_ref_is_five_bytes() {
    let bytes = vec![0x09u8, 0x00, 0x02, 0x01, 0x00];
    let mut at = 0usize;
    assert_eq!(
        FieldRefConstant::from_bytecodes(&bytes, &mut at),
        Ok(FieldRefConstant { class_idx: 2, name_and_type_idx: 256 })
    );
    assert_eq!(at, 5);
}

#[test]
fn method_ref_is_five_bytes() {
    let bytes = vec![0x0au8, 0x00, 0x03, 0x00, 0x0a];
    let mut at = 0usize;
    assert_eq!(
        MethodRefConstant::from_bytecodes(&bytes, &mut at),
        Ok(MethodRefConstant { class_idx: 3, name_and_type_idx: 10 })
    );
    assert_eq!(at, 5);
}

#[test]
fn name_and_type_is_five_bytes() {
    let bytes = vec![0x0cu8, 0x00, 0x04, 0x00, 0x05];
    let mut at = 0usize;
    assert_eq!(
        NameAndTypeConstant::from_bytecodes(&bytes, &mut at),
        Ok(NameAndTypeConstant { name_idx: 4, descriptor_idx: 5 })
    );
    assert_eq!(at, 5);
}

#[test]
fn five_byte_constants_cut_short_are_truncated() {
    let bytes = vec![0x0au8, 0x00, 0x03, 0x00];
    let mut at = 0usize;
    assert_eq!(MethodRefConstant::from_bytecodes(&bytes, &mut at), Err(DecodeError::Truncated));
    assert_eq!(FieldRefConstant::from_bytecodes(&bytes, &mut at), Err(DecodeError::Truncated));
    assert_eq!(NameAndTypeConstant::from_bytecodes(&bytes, &mut at), Err(DecodeError::Truncated));
    assert_eq!(at, 0);
}

#[test]
fn entry_dispatches_on_the_tag() {
    let bytes = vec![
        0x01u8, 0x00, 0x01, b'x', 0x07, 0x00, 0x01, 0x08, 0x00, 0x02, 0x09, 0x00, 0x03, 0x00, 0x04,
        0x0a, 0x00, 0x05, 0x00, 0x06, 0x0c, 0x00, 0x07, 0x00, 0x08,
    ];
    let mut at = 0usize;
    assert_eq!(
        ConstantPoolEntry::from_bytecodes(&bytes, &mut at),
        Ok(ConstantPoolEntry::Utf8(Utf8Constant { utf8_str: "x" }))
    );
    assert_eq!(at, 4);
    assert_eq!(
        ConstantPoolEntry::from_bytecodes(&bytes, &mut at),
        Ok(ConstantPoolEntry::Class(ClassConstant { name_idx: 1 }))
    );
    assert_eq!(at, 7);
    assert_eq!(
        ConstantPoolEntry::from_bytecodes(&bytes, &mut at),
        Ok(ConstantPoolEntry::String(StringConstant { string_idx: 2 }))
    );
    assert_eq!(at, 10);
    assert_eq!(
        ConstantPoolEntry::from_bytecodes(&bytes, &mut at),
        Ok(ConstantPoolEntry::FieldRef(FieldRefConstant { class_idx: 3, name_and_type_idx: 4 }))
    );
    assert_eq!(at, 15);
    assert_eq!(
        ConstantPoolEntry::from_bytecodes(&bytes, &mut at),
        Ok(ConstantPoolEntry::MethodRef(MethodRefConstant { class_idx: 5, name_and_type_idx: 6 }))
    );
    assert_eq!(at, 20);
    assert_eq!(
        ConstantPoolEntry::from_bytecodes(&bytes, &mut at),
        Ok(ConstantPoolEntry::NameAndType(NameAndTypeConstant { name_idx: 7, descriptor_idx: 8 }))
    );
    assert_eq!(at, 25);
    assert_eq!(ConstantPoolEntry::from_bytecodes(&bytes, &mut at), Err(DecodeError::Truncated));
    assert_eq!(at, 25);
}

#[test]
fn unknown_tags_are_reported_by_value() {
    for tag in [0x00u8, 0x02, 0x03, 0x04, 0x05, 0x06, 0x0b, 0x0d, 0x0f, 0x12, 0xff] {
        let bytes = vec![tag, 0, 0, 0, 0, 0, 0, 0, 0];
        let mut at = 0usize;
        assert_eq!(
            ConstantPoolEntry::from_bytecodes(&bytes, &mut at),
            Err(DecodeError::UnsupportedConstantTag(tag))
        );
        assert_eq!(at, 0);
    }
}

#[test]
fn pool_of_declared_count_has_one_entry_less() {
    let bytes = vec![0x07u8, 0x00, 0x02, 0x01, 0x00, 0x01, b'A', 0x08, 0x00, 0x02, 0xee];
    let mut at = 0usize;
    let pool = decode_constant_pool(&bytes, &mut at, 4).unwrap();
    assert_eq!(at, 10);
    assert_eq!(pool.len(), 3);
    assert_eq!(pool.get(&0), None);
    assert_eq!(pool.get(&1), Some(&ConstantPoolEntry::Class(ClassConstant { name_idx: 2 })));
    assert_eq!(pool.get(&2), Some(&ConstantPoolEntry::Utf8(Utf8Constant { utf8_str: "A" })));
    assert_eq!(pool.get(&3), Some(&ConstantPoolEntry::String(StringConstant { string_idx: 2 })));
    assert_eq!(pool.get(&4), None);
}

#[test]
fn pool_of_count_one_or_zero_is_empty() {
    let bytes = vec![0x07u8, 0x00, 0x02];
    let mut at = 0usize;
    assert_eq!(decode_constant_pool(&bytes, &mut at, 1).unwrap().len(), 0);
    assert_eq!(at, 0);
    assert_eq!(decode_constant_pool(&bytes, &mut at, 0).unwrap().len(), 0);
    assert_eq!(at, 0);
}

#[test]
fn pool_fails_as_its_first_bad_entry_does() {
    let bytes = vec![0x07u8, 0x00, 0x02, 0x05, 0x00, 0x00, 0x00, 0x00];
    let mut at = 0usize;
    assert_eq!(
        decode_constant_pool(&bytes, &mut at, 3),
        Err(DecodeError::UnsupportedConstantTag(5))
    );
    assert_eq!(at, 0);
    let short = vec![0x07u8, 0x00, 0x02, 0x07, 0x00];
    assert_eq!(decode_constant_pool(&short, &mut at, 3), Err(DecodeError::Truncated));
    assert_eq!(at, 0);
    let bad_text = vec![0x07u8, 0x00, 0x02, 0x01, 0x00, 0x01, 0xff];
    assert_eq!(decode_constant_pool(&bad_text, &mut at, 3), Err(DecodeError::InvalidUtf8));
    assert_eq!(at, 0);
}

#[test]
fn summaries_of_constants() {
    assert_eq!(
        ConstantPoolEntry::Utf8(Utf8Constant { utf8_str: "main" }).to_string(),
        "Utf8Constant[utf8_str=\"main\"]"
    );
    assert_eq!(
        ConstantPoolEntry::Class(ClassConstant { name_idx: 12 }).to_string(),
        "ClassConstant[name_index=12]"
    );
    assert_eq!(
        ConstantPoolEntry::String(StringConstant { string_idx: 300 }).to_string(),
        "StringConstant[string_index=300]"
    );
    assert_eq!(
        ConstantPoolEntry::FieldRef(FieldRefConstant { class_idx: 2, name_and_type_idx: 65535 })
            .to_string(),
        "FieldRefConstant[class_idx=2, name_and_type_idx=65535]"
    );
    assert_eq!(
        ConstantPoolEntry::MethodRef(MethodRefConstant { class_idx: 3, name_and_type_idx: 10 })
            .to_string(),
        "MethodRefConstant[class_idx=3, name_and_type_idx=10]"
    );
    assert_eq!(
        ConstantPoolEntry::NameAndType(NameAndTypeConstant { name_idx: 4, descriptor_idx: 0 })
            .to_string(),
        "NameAndTypeConstant[name_idx=4, descriptor_idx=0]"
    );
}

#[test]
fn a_text_decodes_from_its_encoding_to_itself() {
    for text in ["", "a", "main", "([Ljava/lang/String;)V", "h\u{e9}llo \u{4e16}\u{754c} \u{1f600}"] {
        let mut bytes = vec![0x01u8, (text.len() / 256) as u8, (text.len() % 256) as u8];
        bytes.extend_from_slice(text.as_bytes());
        bytes.extend_from_slice(&[0xff, 0x01, 0x00]);
        let mut at = 0usize;
        let entry = Utf8Constant::from_bytecodes(&bytes, &mut at).unwrap();
        assert_eq!(entry.utf8_str, text);
        assert_eq!(entry.utf8_str.as_bytes(), &bytes[3..3 + text.len()]);
        assert_eq!(at, 3 + text.len());
    }
}

#[test]
fn a_text_borrows_its_bytes_from_the_buffer() {
    let bytes = vec![0x00u8, 0x01, 0x00, 0x04, b'm', b'a', b'i', b'n'];
    let mut at = 1usize;
    let entry = Utf8Constant::from_bytecodes(&bytes, &mut at).unwrap();
    assert!(std::ptr::eq(entry.utf8_str.as_ptr(), bytes[4..].as_ptr()));
    assert_eq!(at, 8);
}

#[test]
fn pool_indices_run_from_one_without_a_gap() {
    let mut bytes = Vec::new();
    let mut i = 0;
    while i < 300 {
        bytes.extend_from_slice(&[0x07, (i / 256) as u8, (i % 256) as u8]);
        i += 1;
    }
    let mut at = 0usize;
    let pool = decode_constant_pool(&bytes, &mut at, 301).unwrap();
    assert_eq!(at, 900);
    assert_eq!(pool.len(), 300);
    let mut index: u16 = 1;
    while index <= 300 {
        assert_eq!(
            pool.get(&index),
            Some(&ConstantPoolEntry::Class(ClassConstant { name_idx: index - 1 }))
        );
        index += 1;
    }
    assert!(!pool.contains_key(&0));
    assert!(!pool.contains_key(&301));
}
