use c_import::classify::{Header, LanguageMode};
use c_import::header::{content_hash, header_body, header_file_name, push_decimal};
use std::collections::hash_map::DefaultHasher;
use std::hash::{Hash, Hasher};

fn std_hash(s: &str) -> u64 {
    let mut hasher = DefaultHasher::new();
    s.to_string().hash(&mut hasher);
    hasher.finish()
}

fn decimal(n: u128) -> String {
    let mut s = String::new();
    push_decimal(&mut s, n);
    s
}

#[test]
fn body_has_the_guard_and_one_line_per_header_in_order() {
    let headers = vec![
        Header::System("stdio.h".to_string()),
        Header::Local("mine/header.h".to_string()),
        Header::System("cairo/cairo.h".to_string()),
    ];
    assert_eq!(
        header_body(&headers),
        "#pragma once\n#include <stdio.h>\n#include \"mine/header.h\"\n#include <cairo/cairo.h>\n"
    );
}

#[test]
fn body_of_no_header_is_the_guard_alone() {
    assert_eq!(header_body(&Vec::new()), "#pragma once\n");
}

#[test]
fn body_is_the_same_for_the_same_headers() {
    let a = vec![Header::System("a.h".to_string()), Header::Local("b.h".to_string())];
    let b = vec![Header::System("a.h".to_string()), Header::Local("b.h".to_string())];
    assert_eq!(header_body(&a), header_body(&b));
    assert_eq!(
        header_file_name(&a, 1700000000000, LanguageMode::C),
        header_file_name(&b, 1700000000000, LanguageMode::C)
    );
    let swapped = vec![Header::Local("b.h".to_string()), Header::System("a.h".to_string())];
    assert_ne!(header_body(&a), header_body(&swapped));
}

#[test]
fn decimal_numerals() {
    assert_eq!(decimal(0), "0");
    assert_eq!(decimal(7), "7");
    assert_eq!(decimal(9), "9");
    assert_eq!(decimal(10), "10");
    assert_eq!(decimal(1234567890), "1234567890");
    assert_eq!(decimal(u64::MAX as u128), "18446744073709551615");
    assert_eq!(decimal(u128::MAX), "340282366920938463463374607431768211455");
    let mut s = "x".to_string();
    push_decimal(&mut s, 405);
    assert_eq!(s, "x405");
}

#[test]
fn content_hash_is_the_default_hash_of_the_string() {
    for s in ["", "a", "#include <stdio.h>\n", "#include \"héllo.h\"\n#include <x>\n"] {
        assert_eq!(content_hash(s), std_hash(s), "{:?}", s);
    }
    assert_ne!(content_hash("#include <a.h>\n"), content_hash("#include <b.h>\n"));
}

#[test]
fn file_name_is_time_hash_stem_and_extension() {
    let headers = vec![Header::System("stdio.h".to_string())];
    let hash = std_hash("#include <stdio.h>\n");
    assert_eq!(
        header_file_name(&headers, 1700000000123, LanguageMode::C),
        format!("1700000000123{}temphdr.h", hash)
    );
    assert_eq!(
        header_file_name(&headers, 1700000000123, LanguageMode::Cpp),
        format!("1700000000123{}temphdr.hpp", hash)
    );
    assert_eq!(
        header_file_name(&Vec::new(), 0, LanguageMode::C),
        format!("0{}temphdr.h", std_hash(""))
    );
}

#[test]
fn file_names_differ_with_the_headers_and_with_the_time() {
    let a = vec![Header::System("a.h".to_string())];
    let b = vec![Header::System("b.h".to_string())];
    assert_ne!(
        header_file_name(&a, 5, LanguageMode::C),
        header_file_name(&b, 5, LanguageMode::C)
    );
    assert_ne!(
        header_file_name(&a, 5, LanguageMode::C),
        header_file_name(&a, 6, LanguageMode::C)
    );
}
