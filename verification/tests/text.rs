use wasm_builder::text::chars_of;
use wasm_builder::text::contains_chars;
use wasm_builder::text::is_whitespace_char;
use wasm_builder::text::matches_at;
use wasm_builder::text::same_text;
use wasm_builder::text::trimmed_range;

#[test]
fn chars_of_gives_each_character() {
    assert_eq!(chars_of("a\u{e9}\u{1F600}z"), vec!['a', '\u{e9}', '\u{1F600}', 'z']);
    assert_eq!(chars_of(""), Vec::<char>::new());
}

#[test]
fn same_text_compares_all_characters() {
    assert!(same_text("", ""));
    assert!(same_text("riscv", "riscv"));
    assert!(!same_text("riscv", "riscw"));
    assert!(!same_text("riscv", "risc"));
    assert!(!same_text("", "0"));
    assert!(same_text("\u{e9}t\u{e9}", "\u{e9}t\u{e9}"));
    assert!(!same_text("\u{e9}", "e"));
}

#[test]
fn whitespace_is_what_std_calls_whitespace() {
    let mut code: u32 = 0;
    while code <= 0x10FFFF {
        if let Some(c) = char::from_u32(code) {
            assert_eq!(is_whitespace_char(c), c.is_whitespace(), "U+{:04X}", code);
        }
        code += 1;
    }
}

#[test]
fn trimmed_range_is_what_std_trims() {
    for text in [
        "",
        " ",
        "\n\t \r",
        "a",
        "  a",
        "a  ",
        " a b \n",
        "\u{3000}x\u{2003}y\u{a0}",
        "\n\nwasm32-unknown-unknown\nriscv32ema-unknown-none-elf\n\n",
    ] {
        let chars = chars_of(text);
        let (from, to) = trimmed_range(&chars);
        let kept: String = chars[from..to].iter().collect();
        assert_eq!(kept, text.trim());
    }
}

#[test]
fn matches_at_and_contains() {
    let text = chars_of("cargo 1.70.0-nightly");
    let nightly = chars_of("nightly");
    assert!(matches_at(&text, &nightly, 13));
    assert!(!matches_at(&text, &nightly, 12));
    assert!(!matches_at(&text, &nightly, 14));
    assert!(!matches_at(&text, &nightly, 100));
    assert!(contains_chars(&text, &nightly));
    assert!(contains_chars(&text, &chars_of("")));
    assert!(contains_chars(&text, &chars_of("cargo")));
    assert!(!contains_chars(&text, &chars_of("nightlyy")));
    assert!(!contains_chars(&chars_of("night"), &nightly));
    assert!(contains_chars(&chars_of(""), &chars_of("")));
    assert!(matches_at(&chars_of("abc"), &chars_of(""), 3));
    assert!(!matches_at(&chars_of("abc"), &chars_of(""), 4));
}
