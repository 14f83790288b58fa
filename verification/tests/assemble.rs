use c_import::assemble::assemble;

#[test]
fn without_links_the_output_is_returned_as_it_is() {
    assert_eq!(assemble("pub fn f();\n", &Vec::new()), "pub fn f();\n");
    assert_eq!(assemble("", &Vec::new()), "");
}

#[test]
fn one_link_gives_one_block() {
    let text = assemble("BINDINGS", &vec!["m".to_string()]);
    assert_eq!(text, "BINDINGS\n#[link(name = \"m\")]extern \"C\" {}");
    assert_eq!(text.matches("#[link(").count(), 1);
}

#[test]
fn two_links_give_two_blocks_in_order() {
    let text = assemble("", &vec!["foo".to_string(), "bar".to_string()]);
    assert_eq!(
        text,
        "\n#[link(name = \"foo\")]extern \"C\" {}\n#[link(name = \"bar\")]extern \"C\" {}"
    );
    let foo = text.find("\"foo\"").unwrap();
    let bar = text.find("\"bar\"").unwrap();
    assert!(foo < bar);
    assert_eq!(text.matches("extern \"C\" {}").count(), 2);
}

#[test]
fn the_output_always_opens_the_text() {
    let out = "extern \"C\" { pub fn cairo_version() -> i32; }\n";
    let text = assemble(out, &vec!["cairo".to_string(), "c".to_string()]);
    assert!(text.starts_with(out));
    assert_eq!(
        &text[out.len()..],
        "\n#[link(name = \"cairo\")]extern \"C\" {}\n#[link(name = \"c\")]extern \"C\" {}"
    );
}
