use kakao_rs::prelude::{Button, ButtonType, buttons_from_str, buttons_to_string};

#[test]
fn button_de_serialize_test() {
    let data = r#"[{"label":"CALL LABEL","action":"phone","phoneNumber":"0","messageText":"MESSAGE"},{"label":"SHARE LABEL","action":"share"},{"label":"MSG LABEL","action":"message"},{"label":"LABEL","action":"webLink","webLinkUrl":"https://"}]"#;
    let buttons: Vec<Button> = buttons_from_str(data).unwrap();

    assert_eq!(buttons.len(), 4);
    assert_eq!(buttons_to_string(&buttons), data); // Serialize
}

#[test]
fn button_only_serialize_test() {
    let buttons: Vec<Button> = vec![
        Button::call("전화하기", "911"),
        Button::share("공유하기"),
        Button::link("링크열기", "https://"),
        Button::text("그냥 버튼").set_msg("발화문임"),
    ];
    // Serialize
    let data = r#"[{"label":"전화하기","action":"phone","phoneNumber":"911"},{"label":"공유하기","action":"share"},{"label":"링크열기","action":"webLink","webLinkUrl":"https://"},{"label":"그냥 버튼","action":"message","messageText":"발화문임"}]"#;
    assert_eq!(data, buttons_to_string(&buttons));
}

#[test]
fn button_new_sets_action() {
    let b = Button::new(ButtonType::Call).set_label("전화").set_number("010");
    assert_eq!(
        buttons_to_string(&vec![b]),
        r#"[{"label":"전화","action":"phone","phoneNumber":"010"}]"#
    );
}
