//! Names, numbers and string literals.
use maka_codegen::ctypes::{fn_sig_key, inline_local_name, local_name};
use maka_codegen::hir::LocalId;
use maka_codegen::text::{begins_at, c_escape, c_ident, chars_of, dec_i64, dec_u64, hex_text, join, starts_with, string_from, text_contains};

#[test]
fn identifiers_keep_ascii_words() {
    assert_eq!(c_ident("plain_Name09"), "plain_Name09");
    assert_eq!(c_ident(""), "");
}

#[test]
fn identifiers_spell_out_other_characters() {
    assert_eq!(c_ident("a.b"), "a_2eb");
    assert_eq!(c_ident("Vec<int>"), "Vec_3cint_3e");
    assert_eq!(c_ident("é"), "_e9");
    assert_eq!(c_ident("\t"), "_09");
    assert_eq!(c_ident("😀"), "_1f600");
}

#[test]
fn identifiers_are_identifiers() {
    for c in c_ident("x y-z ß \u{7} 漢").chars() {
        assert!(c.is_ascii_alphanumeric() || c == '_');
    }
}

#[test]
fn escapes_named_and_numbered() {
    assert_eq!(c_escape("a\\b\"c\nd\te\rf"), "a\\\\b\\\"c\\nd\\te\\rf");
    assert_eq!(c_escape("\u{1}\u{1f}"), "\\x01\\x1f");
    assert_eq!(c_escape("plain é 😀"), "plain é 😀");
    assert_eq!(c_escape(""), "");
}

#[test]
fn escaped_text_closes_only_at_its_end() {
    let text = c_escape("\\\" end \\");
    let mut escape = false;
    for c in text.chars() {
        assert!((c as u32) >= 0x20);
        if escape {
            escape = false;
        } else if c == '\\' {
            escape = true;
        } else {
            assert!(c != '"');
        }
    }
    assert!(!escape);
}

#[test]
fn decimal_numbers() {
    assert_eq!(dec_u64(0), "0");
    assert_eq!(dec_u64(u64::MAX), "18446744073709551615");
    assert_eq!(dec_i64(-7), "-7");
    assert_eq!(dec_i64(i64::MIN), "-9223372036854775808");
    assert_eq!(dec_i64(i64::MAX), "9223372036854775807");
}

#[test]
fn hexadecimal_numbers_have_two_digits() {
    assert_eq!(hex_text(0), "00");
    assert_eq!(hex_text(10), "0a");
    assert_eq!(hex_text(255), "ff");
    assert_eq!(hex_text(0x1f600), "1f600");
}

#[test]
fn joining() {
    assert_eq!(join(&vec![], ", "), "");
    assert_eq!(join(&vec!["a".to_string()], ", "), "a");
    assert_eq!(join(&vec!["a".to_string(), "".to_string(), "b".to_string()], ", "), "a, , b");
}

#[test]
fn prefixes_and_parts() {
    assert!(starts_with("__lambda_cap_3", "__lambda_cap_"));
    assert!(!starts_with("__lambda", "__lambda_cap_"));
    let v = chars_of("pm_x");
    assert_eq!(string_from(&v, 3), "x");
    assert!(begins_at(&v, 1, &chars_of("m_")));
    assert!(!begins_at(&v, 2, &chars_of("_xy")));
}

#[test]
fn local_names_carry_their_number() {
    assert_eq!(local_name(LocalId(0), "x"), "x_0");
    assert_eq!(local_name(LocalId(12), "a b"), "a_20b_12");
    assert_ne!(local_name(LocalId(1), "x_1"), local_name(LocalId(11), "x"));
}

#[test]
fn inline_local_names_carry_number_and_tag() {
    assert_eq!(inline_local_name(LocalId(3), "ix7_2"), "_il_3_ix7_2");
    assert_ne!(inline_local_name(LocalId(1), "ix1_1"), inline_local_name(LocalId(1), "ix1_2"));
}

#[test]
fn signature_keys_hold_no_quotes_or_plus_signs() {
    let keys = vec!["env".to_string(), "'a+b".to_string(), "int".to_string()];
    assert_eq!(fn_sig_key("unit", &keys, 0), "unit_env_xapb_int_");
    assert_eq!(fn_sig_key("unit", &keys, 1), "unit_xapb_int_");
    assert_eq!(fn_sig_key("int", &vec![], 0), "int_");
}

/// The text that the inside of a literal stands for, hexadecimal escapes being two digits long.
fn unescape(t: &str) -> String {
    let cs: Vec<char> = t.chars().collect();
    let mut out = String::new();
    let mut i = 0;
    while i < cs.len() {
        if cs[i] != '\\' {
            out.push(cs[i]);
            i += 1;
        } else if cs[i + 1] == 'x' {
            let code: String = cs[i + 2..i + 4].iter().collect();
            out.push(u8::from_str_radix(&code, 16).unwrap() as char);
            i += 4;
        } else {
            out.push(match cs[i + 1] {
                'n' => '\n',
                't' => '\t',
                'r' => '\r',
                c => c,
            });
            i += 2;
        }
    }
    out
}

#[test]
fn escapes_read_back() {
    for s in ["", "\\", "\\x41", "a\"b", "\u{1b}[0m", "\u{1b}a", "\0\0", "\r\n\t", "é\u{1f}é", "\\n"] {
        assert_eq!(unescape(&c_escape(s)), s);
    }
}

#[test]
fn parts_of_texts() {
    assert!(text_contains("abcab", "cab"));
    assert!(text_contains("aab", "ab"));
    assert!(text_contains("abc", "abc"));
    assert!(text_contains("", ""));
    assert!(text_contains("abc", ""));
    assert!(!text_contains("abc", "ac"));
    assert!(!text_contains("ab", "abc"));
    assert!(!text_contains("", "a"));
}

#[test]
fn names_put_together() {
    for (a, b) in [("a+", "b"), ("", "é"), ("x", ""), ("_", "2b")] {
        assert_eq!(c_ident(&format!("{}{}", a, b)), format!("{}{}", c_ident(a), c_ident(b)));
    }
}
