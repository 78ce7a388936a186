use humility_cmd_tasks::text::{
    push_dec, push_dec_width, push_hex, push_hex_word, push_pad_left, push_pad_right, push_signed,
};
use humility_cmd_tasks::task_id::{push_task_id, TaskId};

fn with<F: FnOnce(&mut String)>(f: F) -> String {
    let mut s = String::new();
    f(&mut s);
    s
}

#[test]
fn decimal_numbers() {
    assert_eq!(with(|s| push_dec(s, 0)), "0");
    assert_eq!(with(|s| push_dec(s, 7)), "7");
    assert_eq!(with(|s| push_dec(s, 1764993)), "1764993");
    assert_eq!(with(|s| push_dec(s, u64::MAX)), "18446744073709551615");
}

#[test]
fn decimal_appends_to_what_is_there() {
    let mut s = String::from("system time = ");
    push_dec(&mut s, 1990498);
    assert_eq!(s, "system time = 1990498");
}

#[test]
fn hexadecimal_numbers() {
    assert_eq!(with(|s| push_hex(s, 0)), "0");
    assert_eq!(with(|s| push_hex(s, 0x20005fc8)), "20005fc8");
    assert_eq!(with(|s| push_hex(s, 0xdeadbeef)), "deadbeef");
}

#[test]
fn signed_numbers_with_and_without_plus() {
    assert_eq!(with(|s| push_signed(s, 7, true)), "+7");
    assert_eq!(with(|s| push_signed(s, 0, true)), "+0");
    assert_eq!(with(|s| push_signed(s, -18, true)), "-18");
    assert_eq!(with(|s| push_signed(s, 42, false)), "42");
    assert_eq!(with(|s| push_signed(s, i64::MIN, true)), "-9223372036854775808");
    assert_eq!(with(|s| push_signed(s, i64::MAX, true)), "+9223372036854775807");
}

#[test]
fn hex_words_are_zero_padded_to_eight_digits() {
    assert_eq!(with(|s| push_hex_word(s, 0)), "0x00000000");
    assert_eq!(with(|s| push_hex_word(s, 0xc)), "0x0000000c");
    assert_eq!(with(|s| push_hex_word(s, 0x08026e42)), "0x08026e42");
    assert_eq!(with(|s| push_hex_word(s, u32::MAX)), "0xffffffff");
}

#[test]
fn hex_words_match_std_formatting() {
    for v in [0u32, 1, 0xf, 0x10, 0x1234, 0xfffffe00, 0x80000000, u32::MAX] {
        assert_eq!(with(|s| push_hex_word(s, v)), format!("0x{:08x}", v));
        assert_eq!(with(|s| push_hex(s, v as u64)), format!("{:x}", v));
    }
}

#[test]
fn padding_to_a_width() {
    assert_eq!(with(|s| push_dec_width(s, 3, 2)), " 3");
    assert_eq!(with(|s| push_dec_width(s, 11, 2)), "11");
    assert_eq!(with(|s| push_dec_width(s, 123, 2)), "123");
    assert_eq!(with(|s| push_dec_width(s, 14190, 8)), "   14190");
    assert_eq!(with(|s| push_pad_left(s, "SP", 3)), " SP");
    assert_eq!(with(|s| push_pad_left(s, "R10", 3)), "R10");
    assert_eq!(with(|s| push_pad_right(s, "jefe", 15)), "jefe           ");
    assert_eq!(with(|s| push_pad_right(s, "", 11)), "           ");
}

#[test]
fn padding_counts_characters_not_bytes() {
    assert_eq!(with(|s| push_pad_right(s, "héllo…", 8)), "héllo…  ");
}

#[test]
fn task_id_index_and_generation() {
    let id = TaskId((5 << 10) | 7);
    assert_eq!(id.index(), 7);
    assert_eq!(id.generation(), 5);
    let k = TaskId::kernel();
    assert_eq!(k, TaskId(0xffff));
    assert_eq!(k.index(), 1023);
    assert_eq!(k.generation(), 63);
}

#[test]
fn task_id_parts_recompose() {
    for raw in [0u16, 1, 1023, 1024, 0x3fff, 0x8421, 0xffff] {
        let id = TaskId(raw);
        assert_eq!(((id.generation() as u16) << 10) | id.index(), raw);
    }
}

#[test]
fn task_names_by_index() {
    let names = vec!["jefe".to_string(), "pong".to_string()];
    assert_eq!(with(|s| push_task_id(s, &names, TaskId(0))), "jefe/gen0");
    assert_eq!(with(|s| push_task_id(s, &names, TaskId((3 << 10) | 1))), "pong/gen3");
    assert_eq!(with(|s| push_task_id(s, &names, TaskId(9))), "unknown#9/gen0");
}
