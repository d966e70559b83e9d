use bashcheck::i18n::{
    msg_function_naming, msg_line_too_long, msg_missing_shebang, msg_variable_naming, Language,
    Message,
};

#[test]
fn message_get_selects_locale() {
    let message = Message { en: "hello", ja: "こんにちは" };
    assert_eq!(message.get(&Language::English), "hello");
    assert_eq!(message.get(&Language::Japanese), "こんにちは");
}

#[test]
fn catalog_message_localized() {
    let m = msg_missing_shebang();
    assert_eq!(m.get(&Language::English), "Missing shebang line (#!/bin/bash or #!/bin/sh)");
    assert_eq!(m.get(&Language::Japanese), "シバン行がありません (#!/bin/bash または #!/bin/sh)");
}

#[test]
fn line_too_long_embeds_both_numbers() {
    assert_eq!(
        msg_line_too_long(121, 120, &Language::English),
        "Line too long (121 > 120 characters)"
    );
    assert_eq!(
        msg_line_too_long(1005, 120, &Language::English),
        "Line too long (1005 > 120 characters)"
    );
    assert_eq!(
        msg_line_too_long(121, 120, &Language::Japanese),
        "行が長すぎます (121 > 120 文字)"
    );
}

#[test]
fn naming_messages_embed_the_name() {
    assert_eq!(
        msg_function_naming("BadName", &Language::English),
        "Function name 'BadName' should use snake_case (lowercase with underscores)"
    );
    assert_eq!(
        msg_variable_naming("AB", &Language::English),
        "Local variable 'AB' should use lowercase with underscores"
    );
}
