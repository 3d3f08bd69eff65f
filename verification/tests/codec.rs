use kakao_rs::prelude::{
    BasicCard, Button, ButtonType, Carousel, CommerceCard, DecodeError, ItemCard, ListCard,
    ListItem, QuickReply, SimpleImage, SimpleText, Template, Types, buttons_from_str,
    buttons_to_string,
};

#[test]
fn list_card_reference_example() {
    let mut result = Template::new();

    result.add_qr(QuickReply::new("오늘", "오늘 공지 보여줘"));
    result.add_qr(QuickReply::new("어제", "어제 공지 보여줘"));

    let mut list_card = ListCard::new("리스트 카드 제목!");

    list_card.add_button(Button::new(ButtonType::Text).set_label("그냥 텍스트 버튼"));
    list_card.add_button(
        Button::new(ButtonType::Link)
            .set_label("link label")
            .set_link("https://google.com"),
    );
    list_card.add_button(
        Button::new(ButtonType::Share)
            .set_label("share label")
            .set_msg("카톡에 보이는 메시지"),
    );

    list_card.add_item(
        ListItem::new("title")
            .set_desc("description")
            .set_link("https://naver.com"),
    );

    result.add_output(list_card.build());

    let serialized = r#"{"template":{"outputs":[{"listCard":{"buttons":[{"label":"그냥 텍스트 버튼","action":"message"},{"label":"link label","action":"webLink","webLinkUrl":"https://google.com"},{"label":"share label","action":"share","messageText":"카톡에 보이는 메시지"}],"header":{"title":"리스트 카드 제목!"},"items":[{"title":"title","description":"description","link":{"web":"https://naver.com"}}]}}],"quickReplies":[{"action":"message","label":"오늘","messageText":"오늘 공지 보여줘"},{"action":"message","label":"어제","messageText":"어제 공지 보여줘"}]},"version":"2.0"}"#;
    assert_eq!(serialized, result.to_string());
}

#[test]
fn call_button_without_number_uses_sentinel() {
    // Encoding: a phone button with no explicit number carries "0".
    let b = Button::new(ButtonType::Call).set_label("전화");
    assert_eq!(
        buttons_to_string(&vec![b]),
        r#"[{"label":"전화","action":"phone","phoneNumber":"0"}]"#
    );

    // Decoding: a phone button object without a number gets "0" as well.
    let decoded = buttons_from_str(r#"[{"label":"전화","action":"phone"}]"#).unwrap();
    assert_eq!(
        buttons_to_string(&decoded),
        r#"[{"label":"전화","action":"phone","phoneNumber":"0"}]"#
    );
}

#[test]
fn bogus_action_decodes_as_text_button() {
    let decoded = buttons_from_str(r#"[{"label":"x","action":"bogus"}]"#).unwrap();
    assert_eq!(
        buttons_to_string(&decoded),
        r#"[{"label":"x","action":"message"}]"#
    );
}

#[test]
fn no_quick_replies_omits_key() {
    let mut result = Template::new();
    result.add_output(SimpleText::new("본문").build());
    assert_eq!(
        result.to_string(),
        r#"{"template":{"outputs":[{"simpleText":{"text":"본문"}}]},"version":"2.0"}"#
    );
}

#[test]
fn unknown_top_level_field_fails() {
    let text = r#"{"template":{"outputs":[]},"version":"2.0","extra":1}"#;
    assert!(matches!(
        Template::from_str(text),
        Err(DecodeError::UnknownField)
    ));
}

#[test]
fn unknown_nested_field_fails() {
    let text = r#"{"template":{"outputs":[{"simpleText":{"text":"a","bogus":"b"}}]},"version":"2.0"}"#;
    assert!(matches!(
        Template::from_str(text),
        Err(DecodeError::UnknownField)
    ));
}

#[test]
fn missing_required_field_fails() {
    // No version.
    assert!(matches!(
        Template::from_str(r#"{"template":{"outputs":[]}}"#),
        Err(DecodeError::MissingField)
    ));
    // No text inside a simple text output.
    assert!(matches!(
        Template::from_str(r#"{"template":{"outputs":[{"simpleText":{}}]},"version":"2.0"}"#),
        Err(DecodeError::MissingField)
    ));
    // A link button without its URL.
    assert!(matches!(
        buttons_from_str(r#"[{"label":"x","action":"webLink"}]"#),
        Err(DecodeError::MissingField)
    ));
}

#[test]
fn wrong_type_and_syntax_fail() {
    assert!(matches!(
        Template::from_str(r#"{"template":{"outputs":[{"simpleText":{"text":5}}]},"version":"2.0"}"#),
        Err(DecodeError::WrongType)
    ));
    assert!(matches!(
        Template::from_str(r#"{"template"#),
        Err(DecodeError::Syntax)
    ));
    assert!(matches!(
        Template::from_str(r#"[1,2,3]"#),
        Err(DecodeError::WrongType)
    ));
    assert!(matches!(
        Template::from_str(
            r#"{"template":{"outputs":[{"whatIsThis":{}}]},"version":"2.0"}"#
        ),
        Err(DecodeError::UnknownShape)
    ));
    assert!(matches!(
        Template::from_str(
            r#"{"template":{"outputs":[]},"version":"2.0","version":"2.0"}"#
        ),
        Err(DecodeError::UnknownField)
    ));
}

#[test]
fn every_output_round_trips_through_text() {
    let mut result = Template::new();
    result.add_output(SimpleText::new("텍스트 \"인용\"\n둘째 줄").build());
    result.add_output(SimpleImage::new("https://example.invalid/a.png", "대체 텍스트").build());
    let mut list_card = ListCard::new("헤더");
    list_card.add_item(ListItem::new("행").set_image("https://example.invalid/i.png"));
    result.add_output(list_card.build());
    result.add_output(
        BasicCard::new()
            .set_title("기본")
            .set_desc("설명")
            .set_thumbnail("https://example.invalid/t.png")
            .set_fixed_ratio(true)
            .set_width(640)
            .set_height(480)
            .add_button(Button::call("전화", "010-0000-0000"))
            .build(),
    );
    result.add_output(
        CommerceCard::new()
            .set_desc("상품")
            .set_price(-1500)
            .set_currency("WON")
            .set_discount(500)
            .set_discount_rate_price(10, 1350)
            .set_thumbnail("https://example.invalid/c.png")
            .build(),
    );
    result.add_output(ItemCard::new().set_title("항목").build());
    let mut carousel = Carousel::new().set_type(&CommerceCard::id());
    carousel.add_card(
        CommerceCard::new()
            .set_desc("카드")
            .set_price(1)
            .set_currency("WON")
            .build_card(),
    );
    result.add_output(carousel.build());
    result.add_qr(QuickReply::new("빠른", "응답").set_block_id("블록"));

    let text = result.to_string();
    let back = Template::from_str(&text).unwrap();
    assert_eq!(back.to_string(), text);
    assert_eq!(back.template.outputs.len(), 7);
    assert!(matches!(back.template.outputs[6], Types::Carousel { .. }));
}

#[test]
fn escapes_round_trip() {
    let mut result = Template::new();
    result.add_output(SimpleText::new("a\"b\\c/d\u{8}e\u{c}f\ng\rh\ti\u{1}j").build());
    let text = result.to_string();
    assert_eq!(
        text,
        "{\"template\":{\"outputs\":[{\"simpleText\":{\"text\":\"a\\\"b\\\\c/d\\be\\ff\\ng\\rh\\ti\\u0001j\"}}]},\"version\":\"2.0\"}"
    );
    let back = Template::from_str(&text).unwrap();
    assert_eq!(back.to_string(), text);
}

#[test]
fn unicode_escape_decodes() {
    // A BMP escape decodes to its character and reprints as the character.
    let text = r#"{"template":{"outputs":[{"simpleText":{"text":"\uD55C\u0041\u00e9"}}]},"version":"2.0"}"#;
    let back = Template::from_str(text).unwrap();
    assert_eq!(
        back.to_string(),
        r#"{"template":{"outputs":[{"simpleText":{"text":"한Aé"}}]},"version":"2.0"}"#
    );
    // A lone surrogate escape is refused.
    let bad = r#"{"template":{"outputs":[{"simpleText":{"text":"\uDC00"}}]},"version":"2.0"}"#;
    assert!(matches!(Template::from_str(bad), Err(DecodeError::Syntax)));
}

#[test]
fn numbers_parse_and_reprint() {
    let text = r#"{"template":{"outputs":[{"commerceCard":{"description":"d","price":-2147483648,"currency":"WON"}}]},"version":"2.0"}"#;
    let back = Template::from_str(text).unwrap();
    assert_eq!(back.to_string(), text);
    // A price outside the 32-bit range is refused.
    let big = r#"{"template":{"outputs":[{"commerceCard":{"description":"d","price":2147483648,"currency":"WON"}}]},"version":"2.0"}"#;
    assert!(matches!(Template::from_str(big), Err(DecodeError::WrongType)));
}

#[test]
fn output_order_is_append_order() {
    let mut result = Template::new();
    result.add_output(SimpleText::new("첫").build());
    result.add_output(SimpleText::new("둘").build());
    result.add_output(SimpleImage::new("u", "a").build());
    result.add_qr(QuickReply::new("가", "1"));
    result.add_qr(QuickReply::new("나", "2"));
    assert_eq!(
        result.to_string(),
        r#"{"template":{"outputs":[{"simpleText":{"text":"첫"}},{"simpleText":{"text":"둘"}},{"simpleImage":{"imageUrl":"u","altText":"a"}}],"quickReplies":[{"action":"message","label":"가","messageText":"1"},{"action":"message","label":"나","messageText":"2"}]},"version":"2.0"}"#
    );
}

#[test]
fn helper_views_expose_content() {
    let st = SimpleText::new("본문");
    assert_eq!(st.html(), "본문");
    let si = SimpleImage::new("https://example.invalid/x.png", "대체");
    assert_eq!(si.html(), "https://example.invalid/x.png");
    assert_eq!(BasicCard::id(), "basicCard");
    assert_eq!(CommerceCard::id(), "commerceCard");
}
