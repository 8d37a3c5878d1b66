use d_buddy::format::{format_value, LineStyle, StyledLine};
use d_buddy::value::Value;
use zbus::zvariant::Value as Wire;

fn line(text: &str, style: LineStyle) -> StyledLine {
    StyledLine { text: text.to_string(), style }
}

fn texts(lines: &[StyledLine]) -> Vec<String> {
    lines.iter().map(|l| l.text.clone()).collect()
}

fn bytes(data: &[u8]) -> Value {
    Value::Array(data.iter().map(|b| Value::U8(*b)).collect())
}

fn pair(key: &str, value: Value) -> Value {
    Value::Structure(vec![Value::Str(key.to_string()), value])
}

#[test]
fn byte_array_is_a_hex_dump() {
    let lines = format_value(&bytes(&[0x48, 0x65, 0x6c, 0x6c, 0x6f]));
    assert_eq!(lines.len(), 2);
    assert_eq!(lines[0], line("value [ay (u8[])]:", LineStyle::Plain));
    let expected = format!("  00000000: 48 65 6c 6c 6f {} |Hello|", " ".repeat(33));
    assert_eq!(lines[1], line(&expected, LineStyle::Plain));
    assert!(lines[1].text.trim_start().starts_with("00000000: 48 65 6c 6c 6f"));
    assert!(lines[1].text.ends_with("|Hello|"));
}

#[test]
fn hex_dump_gutter_is_aligned_across_lines() {
    let data: Vec<u8> = (0u8..20).collect();
    let lines = format_value(&bytes(&data));
    assert_eq!(lines.len(), 3);
    assert_eq!(
        lines[1].text,
        "  00000000: 00 01 02 03 04 05 06 07 08 09 0a 0b 0c 0d 0e 0f  |................|"
    );
    assert_eq!(
        lines[2].text,
        format!("  00000010: 10 11 12 13 {} |....|", " ".repeat(36))
    );
    let first_bar = lines[1].text.find('|').unwrap();
    let second_bar = lines[2].text.find('|').unwrap();
    assert_eq!(first_bar, second_bar);
}

#[test]
fn hex_dump_shows_printable_bytes_only() {
    let lines = format_value(&bytes(&[0x1f, 0x20, 0x7e, 0x7f, 0xff]));
    assert!(lines[1].text.ends_with("|. ~..|"));
    assert!(lines[1].text.contains("1f 20 7e 7f ff"));
}

#[test]
fn hex_dump_of_sixteen_bytes_is_one_full_line() {
    let data = [0x41u8; 16];
    let lines = format_value(&bytes(&data));
    assert_eq!(lines.len(), 2);
    assert_eq!(
        lines[1].text,
        "  00000000: 41 41 41 41 41 41 41 41 41 41 41 41 41 41 41 41  |AAAAAAAAAAAAAAAA|"
    );
}

#[test]
fn keyed_pairs_render_as_a_dictionary() {
    let value = Value::Array(vec![pair("x", Value::I32(1)), pair("y", Value::I32(2))]);
    let lines = format_value(&value);
    assert_eq!(
        lines,
        vec![
            line("value [struct[]]:", LineStyle::Plain),
            line("  x:", LineStyle::Plain),
            line("     [i32]: 1", LineStyle::Plain),
            line("  y:", LineStyle::Plain),
            line("     [i32]: 2", LineStyle::Striped),
        ]
    );
    let x_column = lines[1].text.find('x').unwrap();
    let y_column = lines[3].text.find('y').unwrap();
    assert_eq!(x_column, y_column);
    assert!(lines[2].text.ends_with(": 1"));
    assert!(lines[4].text.ends_with(": 2"));
}

#[test]
fn formatting_twice_gives_the_same_lines() {
    let value = Value::Structure(vec![
        Value::Str("hello".to_string()),
        bytes(&[1, 2, 3]),
        Value::Dict(vec![(Value::Str("k".to_string()), Value::Variant(Box::new(Value::U64(7))))]),
    ]);
    let first = format_value(&value);
    let second = format_value(&value);
    assert_eq!(first, second);
    assert!(!first.is_empty());
}

#[test]
fn root_structure_has_no_line_of_its_own() {
    let value = Value::Structure(vec![Value::U32(5), Value::Str("a".to_string())]);
    assert_eq!(
        format_value(&value),
        vec![
            line("i_1 [u32]: 5", LineStyle::Plain),
            line("i_2 [str]: \"a\"", LineStyle::Striped),
        ]
    );
}

#[test]
fn empty_root_structure_has_no_lines() {
    assert_eq!(format_value(&Value::Structure(vec![])), vec![]);
}

#[test]
fn root_scalar_is_labelled_value() {
    assert_eq!(format_value(&Value::U8(200)), vec![line("value [u8]: 200", LineStyle::Plain)]);
    assert_eq!(
        format_value(&Value::I16(-32768)),
        vec![line("value [i16]: -32768", LineStyle::Plain)]
    );
    assert_eq!(format_value(&Value::U16(0)), vec![line("value [u16]: 0", LineStyle::Plain)]);
    assert_eq!(
        format_value(&Value::I32(-2147483648)),
        vec![line("value [i32]: -2147483648", LineStyle::Plain)]
    );
    assert_eq!(
        format_value(&Value::U32(4294967295)),
        vec![line("value [u32]: 4294967295", LineStyle::Plain)]
    );
    assert_eq!(
        format_value(&Value::I64(i64::MIN)),
        vec![line("value [i64]: -9223372036854775808", LineStyle::Plain)]
    );
    assert_eq!(
        format_value(&Value::U64(u64::MAX)),
        vec![line("value [u64]: 18446744073709551615", LineStyle::Plain)]
    );
    assert_eq!(
        format_value(&Value::Bool(true)),
        vec![line("value [bool]: true", LineStyle::Plain)]
    );
    assert_eq!(
        format_value(&Value::Bool(false)),
        vec![line("value [bool]: false", LineStyle::Plain)]
    );
}

#[test]
fn scalar_texts_match_standard_formatting() {
    for n in [0i64, 7, 10, 99, 100, 12345, -1, -10, i64::MAX, i64::MIN] {
        let lines = format_value(&Value::I64(n));
        assert_eq!(lines[0].text, format!("value [i64]: {}", n));
    }
    for n in [0u64, 9, 10, 11, 1000, u64::MAX] {
        let lines = format_value(&Value::U64(n));
        assert_eq!(lines[0].text, format!("value [u64]: {}", n));
    }
}

#[test]
fn strings_signatures_and_paths() {
    assert_eq!(
        format_value(&Value::Str("hi there".to_string())),
        vec![line("value [str]: \"hi there\"", LineStyle::Plain)]
    );
    assert_eq!(
        format_value(&Value::Signature("a{sv}".to_string())),
        vec![line("value [signature]: 'a{sv}'", LineStyle::Plain)]
    );
    assert_eq!(
        format_value(&Value::ObjectPath("/org/freedesktop/DBus".to_string())),
        vec![line("value [object-path]: /org/freedesktop/DBus", LineStyle::Plain)]
    );
}

#[test]
fn floats_and_descriptors_show_their_text() {
    let shown = format!("{}", 1.5f64);
    assert_eq!(
        format_value(&Value::F64 { shown, integral: false }),
        vec![line("value [f64]: 1.5", LineStyle::Plain)]
    );
    assert_eq!(
        format_value(&Value::Fd { number: 5, owned: false }),
        vec![line("value [fd]: Borrowed(BorrowedFd { fd: 5 })", LineStyle::Plain)]
    );
    assert_eq!(
        format_value(&Value::Fd { number: 7, owned: true }),
        vec![line("value [fd]: Owned(OwnedFd { fd: 7 })", LineStyle::Plain)]
    );
}

#[test]
fn variant_is_transparent() {
    let boxed = Value::Variant(Box::new(Value::Variant(Box::new(Value::U32(9)))));
    assert_eq!(format_value(&boxed), format_value(&Value::U32(9)));
    let root = Value::Variant(Box::new(Value::Structure(vec![Value::U8(1)])));
    assert_eq!(
        format_value(&root),
        vec![
            line("value [struct]:", LineStyle::Structure),
            line("  i_1 [u8]: 1", LineStyle::Plain),
        ]
    );
}

#[test]
fn empty_containers_are_one_line() {
    assert_eq!(
        format_value(&Value::Array(vec![])),
        vec![line("value [array]: []", LineStyle::Plain)]
    );
    assert_eq!(
        format_value(&Value::Dict(vec![])),
        vec![line("value [dict]: {}", LineStyle::Dictionary)]
    );
    let nested = Value::Array(vec![Value::Structure(vec![])]);
    assert_eq!(
        format_value(&nested),
        vec![
            line("value [array]:", LineStyle::Plain),
            line("  0 [struct]: (empty)", LineStyle::Structure),
        ]
    );
}

#[test]
fn homogeneous_scalars_are_compact() {
    let strings = Value::Array(vec![Value::Str("a".to_string()), Value::Str("b".to_string())]);
    assert_eq!(
        format_value(&strings),
        vec![line("value [str[]]: [\"a\", \"b\"]", LineStyle::Plain)]
    );
    let ints = Value::Array(vec![Value::I32(1), Value::I32(-2), Value::I32(3)]);
    assert_eq!(format_value(&ints), vec![line("value [i32[]]: [1, -2, 3]", LineStyle::Plain)]);
    let one = Value::Array(vec![Value::Bool(true)]);
    assert_eq!(format_value(&one), vec![line("value [bool[]]: [true]", LineStyle::Plain)]);
    let signatures = Value::Array(vec![Value::Signature("s".to_string())]);
    assert_eq!(
        format_value(&signatures),
        vec![line("value [signature[]]: ['s']", LineStyle::Plain)]
    );
}

#[test]
fn compact_elements_name_their_type() {
    let unsigned = Value::Array(vec![Value::U32(1), Value::U32(2)]);
    assert_eq!(
        format_value(&unsigned),
        vec![line("value [u32[]]: [uint32 1, uint32 2]", LineStyle::Plain)]
    );
    let wide = Value::Array(vec![Value::I64(-1), Value::I64(2)]);
    assert_eq!(
        format_value(&wide),
        vec![line("value [i64[]]: [int64 -1, int64 2]", LineStyle::Plain)]
    );
    let small = Value::Array(vec![Value::I16(3), Value::I16(4)]);
    assert_eq!(
        format_value(&small),
        vec![line("value [i16[]]: [int16 3, int16 4]", LineStyle::Plain)]
    );
    let words = Value::Array(vec![Value::U16(3)]);
    assert_eq!(format_value(&words), vec![line("value [u16[]]: [uint16 3]", LineStyle::Plain)]);
    let big = Value::Array(vec![Value::U64(3)]);
    assert_eq!(format_value(&big), vec![line("value [u64[]]: [uint64 3]", LineStyle::Plain)]);
    let floats = Value::Array(vec![
        Value::F64 { shown: "1".to_string(), integral: true },
        Value::F64 { shown: "2.5".to_string(), integral: false },
    ]);
    assert_eq!(format_value(&floats), vec![line("value [f64[]]: [1., 2.5]", LineStyle::Plain)]);
    let paths = Value::Array(vec![Value::ObjectPath("/a".to_string())]);
    assert_eq!(
        format_value(&paths),
        vec![line("value [object-path[]]: [objectpath \"/a\"]", LineStyle::Plain)]
    );
    let handles = Value::Array(vec![Value::Fd { number: 3, owned: true }]);
    assert_eq!(format_value(&handles), vec![line("value [fd[]]: [handle 3]", LineStyle::Plain)]);
}

#[test]
fn mixed_arrays_list_each_element_under_its_index() {
    let mixed = Value::Array(vec![Value::I32(1), Value::Str("x".to_string()), Value::U8(2)]);
    assert_eq!(
        format_value(&mixed),
        vec![
            line("value [array]:", LineStyle::Plain),
            line("  0 [i32]: 1", LineStyle::Plain),
            line("  1 [str]: \"x\"", LineStyle::Striped),
            line("  2 [u8]: 2", LineStyle::Plain),
        ]
    );
    let nested = Value::Array(vec![
        Value::Array(vec![Value::I32(1)]),
        Value::Array(vec![Value::I32(2)]),
    ]);
    assert_eq!(
        format_value(&nested),
        vec![
            line("value [array]:", LineStyle::Plain),
            line("  0 [i32[]]: [1]", LineStyle::Plain),
            line("  1 [i32[]]: [2]", LineStyle::Striped),
        ]
    );
    let boxed = Value::Array(vec![Value::Variant(Box::new(Value::I32(1)))]);
    assert_eq!(
        format_value(&boxed),
        vec![
            line("value [array]:", LineStyle::Plain),
            line("  0 [i32]: 1", LineStyle::Plain),
        ]
    );
}

#[test]
fn structure_fields_are_numbered_from_one() {
    let value = Value::Array(vec![Value::Structure(vec![
        Value::U8(1),
        Value::U8(2),
        Value::U8(3),
    ])]);
    assert_eq!(
        format_value(&value),
        vec![
            line("value [array]:", LineStyle::Plain),
            line("  0 [struct]:", LineStyle::Structure),
            line("    i_1 [u8]: 1", LineStyle::Plain),
            line("    i_2 [u8]: 2", LineStyle::Striped),
            line("    i_3 [u8]: 3", LineStyle::Plain),
        ]
    );
}

#[test]
fn dictionary_keys_are_padded_to_the_widest() {
    let value = Value::Dict(vec![
        (Value::Str("a".to_string()), Value::U32(1)),
        (Value::Str("long".to_string()), Value::Str("v".to_string())),
    ]);
    assert_eq!(
        format_value(&value),
        vec![
            line("value [dict]:", LineStyle::Dictionary),
            line("  a   : [u32]: 1", LineStyle::Dictionary),
            line("  long: [str]: \"v\"", LineStyle::Dictionary),
        ]
    );
}

#[test]
fn dictionary_values_of_several_lines_align_under_the_value_column() {
    let value = Value::Dict(vec![
        (
            Value::Str("list".to_string()),
            Value::Array(vec![Value::I32(1), Value::Str("x".to_string())]),
        ),
        (Value::Str("n".to_string()), Value::Variant(Box::new(Value::U8(3)))),
    ]);
    let lines = format_value(&value);
    assert_eq!(
        texts(&lines),
        vec![
            "value [dict]:".to_string(),
            "  list: [array]:".to_string(),
            "          0 [i32]: 1".to_string(),
            "          1 [str]: \"x\"".to_string(),
            "  n   : [u8]: 3".to_string(),
        ]
    );
    assert!(lines.iter().all(|l| l.style == LineStyle::Dictionary));
    let column = 1 * 2 + "list".len() + 2;
    assert!(lines[2].text.starts_with(&" ".repeat(column)));
    assert_eq!(lines[1].text.find('[').unwrap(), column);
}

#[test]
fn dictionary_keys_that_are_not_strings_name_their_variant() {
    let value = Value::Dict(vec![
        (Value::U32(5), Value::Bool(true)),
        (Value::Bool(false), Value::Bool(true)),
        (Value::ObjectPath("/a".to_string()), Value::Bool(true)),
    ]);
    assert_eq!(
        texts(&format_value(&value)),
        vec![
            "value [dict]:".to_string(),
            "  U32(5)                      : [bool]: true".to_string(),
            "  Bool(false)                 : [bool]: true".to_string(),
            "  ObjectPath(ObjectPath(\"/a\")): [bool]: true".to_string(),
        ]
    );
}

#[test]
fn dictionary_key_width_counts_bytes() {
    let value = Value::Dict(vec![
        (Value::Str("é".to_string()), Value::U8(1)),
        (Value::Str("ab".to_string()), Value::U8(2)),
    ]);
    assert_eq!(
        texts(&format_value(&value)),
        vec![
            "value [dict]:".to_string(),
            "  é: [u8]: 1".to_string(),
            "  ab: [u8]: 2".to_string(),
        ]
    );
}

#[test]
fn keyed_pairs_nest_their_values_two_levels_down() {
    let value = Value::Structure(vec![Value::Array(vec![
        pair("name", Value::Variant(Box::new(Value::Str("n".to_string())))),
        pair("data", bytes(&[0x00])),
    ])]);
    assert_eq!(
        texts(&format_value(&value)),
        vec![
            "i_1 [struct[]]:".to_string(),
            "  name:".to_string(),
            "     [str]: \"n\"".to_string(),
            "  data:".to_string(),
            "     [ay (u8[])]:".to_string(),
            format!("      00000000: 00 {} |.|", " ".repeat(45)),
        ]
    );
}

#[test]
fn a_pair_whose_first_field_is_no_string_is_no_keyed_pair() {
    let value = Value::Array(vec![Value::Structure(vec![Value::U8(1), Value::U8(2)])]);
    assert_eq!(
        texts(&format_value(&value)),
        vec![
            "value [array]:".to_string(),
            "  0 [struct]:".to_string(),
            "    i_1 [u8]: 1".to_string(),
            "    i_2 [u8]: 2".to_string(),
        ]
    );
}

fn compact(value: Value) -> String {
    let lines = format_value(&Value::Array(vec![value]));
    assert_eq!(lines.len(), 1);
    let text = &lines[0].text;
    let open = text.find("]: [").unwrap() + 4;
    text[open..text.len() - 1].to_string()
}

#[test]
fn compact_elements_agree_with_the_transport() {
    for n in [i16::MIN, -1, 0, 7, i16::MAX] {
        assert_eq!(compact(Value::I16(n)), Wire::I16(n).to_string());
    }
    for n in [0u16, 9, u16::MAX] {
        assert_eq!(compact(Value::U16(n)), Wire::U16(n).to_string());
    }
    for n in [i32::MIN, -10, 0, 123456, i32::MAX] {
        assert_eq!(compact(Value::I32(n)), Wire::I32(n).to_string());
    }
    for n in [0u32, 10, u32::MAX] {
        assert_eq!(compact(Value::U32(n)), Wire::U32(n).to_string());
    }
    for n in [i64::MIN, -99, 0, 1, i64::MAX] {
        assert_eq!(compact(Value::I64(n)), Wire::I64(n).to_string());
    }
    for n in [0u64, 100, u64::MAX] {
        assert_eq!(compact(Value::U64(n)), Wire::U64(n).to_string());
    }
    for b in [true, false] {
        assert_eq!(compact(Value::Bool(b)), Wire::Bool(b).to_string());
    }
    for x in [0.0f64, 1.0, -2.0, 1.5, -0.25, 1e21, 1e-7] {
        let ours = Value::F64 { shown: x.to_string(), integral: x.fract() == 0.0 };
        assert_eq!(compact(ours), Wire::F64(x).to_string());
    }
    for path in ["/", "/org/freedesktop/DBus", "/a_b/C9"] {
        let wire = Wire::ObjectPath(zbus::zvariant::ObjectPath::try_from(path).unwrap());
        assert_eq!(compact(Value::ObjectPath(path.to_string())), wire.to_string());
    }
}

#[test]
fn dictionary_keys_agree_with_the_transport() {
    let key = |value: Value| {
        let lines = format_value(&Value::Dict(vec![(value, Value::U8(0))]));
        let text = lines[1].text.clone();
        text[2..text.len() - ": [u8]: 0".len()].to_string()
    };
    let shown = |wire: Wire| format!("{:?}", wire).trim_matches('"').to_string();
    assert_eq!(key(Value::U8(200)), shown(Wire::U8(200)));
    assert_eq!(key(Value::I16(-3)), shown(Wire::I16(-3)));
    assert_eq!(key(Value::U16(3)), shown(Wire::U16(3)));
    assert_eq!(key(Value::I32(-70000)), shown(Wire::I32(-70000)));
    assert_eq!(key(Value::U32(70000)), shown(Wire::U32(70000)));
    assert_eq!(key(Value::I64(i64::MIN)), shown(Wire::I64(i64::MIN)));
    assert_eq!(key(Value::U64(u64::MAX)), shown(Wire::U64(u64::MAX)));
    assert_eq!(key(Value::Bool(true)), shown(Wire::Bool(true)));
    let path = zbus::zvariant::ObjectPath::try_from("/org/a").unwrap();
    assert_eq!(key(Value::ObjectPath("/org/a".to_string())), shown(Wire::ObjectPath(path)));
    assert_eq!(key(Value::Str("name".to_string())), "name");
}
