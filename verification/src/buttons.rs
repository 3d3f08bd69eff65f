//! Buttons: a tappable action attached to a card or list item.
//!
//! A button is one of four kinds, told apart on the wire by its `action`
//! string: `message`, `webLink`, `share` or `phone`. The codec keeps two
//! documented leniencies of the wire format: an unrecognized `action` decodes
//! as a text button, and a phone button without a `phoneNumber` falls back to
//! the sentinel `"0"`.

use vstd::prelude::*;
use vstd::string::StringExecFns;

use crate::json::{
    obj_lookup, keys_unique, keys_within, req_str_field, opt_str_field, obj_push,
    keys_ok, get_req_str, get_opt_str, str_eq, opt_str_entry, opt_view, arr_push, vals_view,
    lemma_vals_view_len, lemma_vals_view_index, DecodeError, JsonVal, JsonValue,
};

verus! {

broadcast use vstd::seq::group_seq_axioms, vstd::string::group_string_axioms;

/// The four button kinds.
#[derive(Clone, Copy, Debug)]
pub enum ButtonType {
    Call,
    Share,
    Link,
    Text,
}

/// A button. The `action` field is determined by the kind the button was
/// built with, never set independently; the optional fields are emitted only
/// when present.
#[derive(Debug)]
pub struct Button {
    pub label: String,
    pub action: String,
    pub phone_number: Option<String>,
    pub web_link_url: Option<String>,
    pub message_text: Option<String>,
}

/// Model of a button.
#[verifier::ext_equal]
pub struct ButtonV {
    pub label: Seq<char>,
    pub action: Seq<char>,
    pub phone_number: Option<Seq<char>>,
    pub web_link_url: Option<Seq<char>>,
    pub message_text: Option<Seq<char>>,
}

impl View for Button {
    type V = ButtonV;

    open spec fn view(&self) -> ButtonV {
        ButtonV {
            label: self.label@,
            action: self.action@,
            phone_number: opt_view(self.phone_number),
            web_link_url: opt_view(self.web_link_url),
            message_text: opt_view(self.message_text),
        }
    }
}

/// The wire `action` string of a button kind.
pub open spec fn spec_action_of(t: ButtonType) -> Seq<char> {
    match t {
        ButtonType::Call => "phone"@,
        ButtonType::Share => "share"@,
        ButtonType::Link => "webLink"@,
        ButtonType::Text => "message"@,
    }
}

/// The kind selected by an `action` string; anything outside the closed set
/// falls back to a text button.
pub open spec fn spec_action_kind(a: Seq<char>) -> ButtonType {
    if a == "phone"@ {
        ButtonType::Call
    } else if a == "webLink"@ {
        ButtonType::Link
    } else if a == "share"@ {
        ButtonType::Share
    } else {
        ButtonType::Text
    }
}

/// The four wire `action` strings are pairwise distinct.
pub proof fn lemma_action_lits()
    ensures
        "phone"@ != "webLink"@,
        "phone"@ != "share"@,
        "phone"@ != "message"@,
        "webLink"@ != "share"@,
        "webLink"@ != "message"@,
        "share"@ != "message"@,
{
    reveal_strlit("phone");
    reveal_strlit("webLink");
    reveal_strlit("share");
    reveal_strlit("message");
    assert("phone"@.len() == 5 && "webLink"@.len() == 7 && "share"@.len() == 5 && "message"@.len()
        == 7);
    assert("phone"@[0] == 'p' && "share"@[0] == 's');
    assert("webLink"@[0] == 'w' && "message"@[0] == 'm');
}

impl ButtonV {
    /// The fields a button holds agree with its `action`: the action is one
    /// of the four wire strings and only the kind's own optional fields are
    /// present.
    pub open spec fn wf(self) -> bool {
        &&& (self.action == "phone"@ || self.action == "webLink"@ || self.action == "share"@
            || self.action == "message"@)
        &&& (self.action == "phone"@ ==> self.phone_number is Some && self.web_link_url is None)
        &&& (self.action == "webLink"@ ==> self.web_link_url is Some && self.phone_number is None)
        &&& (self.action == "share"@ ==> self.phone_number is None && self.web_link_url is None)
        &&& (self.action == "message"@ ==> self.phone_number is None && self.web_link_url is None)
    }
}

/// The `phoneNumber` entry: always present on a phone button, with the
/// sentinel `"0"` when no number was set.
pub open spec fn phone_entry(b: ButtonV) -> Seq<(Seq<char>, JsonVal)> {
    if b.action == "phone"@ {
        seq![
            (
                "phoneNumber"@,
                JsonVal::Str(
                    match b.phone_number {
                        Some(p) => p,
                        None => "0"@,
                    },
                ),
            ),
        ]
    } else {
        opt_str_entry("phoneNumber"@, b.phone_number)
    }
}

/// Encoding of a button: `label`, `action`, then the kind's own fields.
pub open spec fn spec_enc_button(b: ButtonV) -> JsonVal {
    JsonVal::Obj(
        seq![("label"@, JsonVal::Str(b.label)), ("action"@, JsonVal::Str(b.action))]
            + phone_entry(b) + opt_str_entry("webLinkUrl"@, b.web_link_url) + opt_str_entry(
            "messageText"@,
            b.message_text,
        ),
    )
}

/// The keys a button object may hold, by kind.
pub open spec fn button_allowed_keys(k: ButtonType) -> Seq<Seq<char>> {
    match k {
        ButtonType::Call => seq!["label"@, "action"@, "phoneNumber"@, "messageText"@],
        ButtonType::Link => seq!["label"@, "action"@, "webLinkUrl"@, "messageText"@],
        ButtonType::Share => seq!["label"@, "action"@, "messageText"@],
        ButtonType::Text => seq!["label"@, "action"@, "messageText"@],
    }
}

/// Decoding of the kind's fields once the kind is known.
pub open spec fn spec_dec_button_fields(p: Seq<(Seq<char>, JsonVal)>, k: ButtonType) -> Option<
    ButtonV,
> {
    if !keys_within(p, button_allowed_keys(k)) {
        None
    } else {
        match (req_str_field(p, "label"@), opt_str_field(p, "messageText"@)) {
            (Some(label), Some(msg)) => match k {
                ButtonType::Call => match opt_str_field(p, "phoneNumber"@) {
                    Some(ph) => Some(
                        ButtonV {
                            label,
                            action: "phone"@,
                            phone_number: Some(
                                match ph {
                                    Some(x) => x,
                                    None => "0"@,
                                },
                            ),
                            web_link_url: None,
                            message_text: msg,
                        },
                    ),
                    None => None,
                },
                ButtonType::Link => match req_str_field(p, "webLinkUrl"@) {
                    Some(u) => Some(
                        ButtonV {
                            label,
                            action: "webLink"@,
                            phone_number: None,
                            web_link_url: Some(u),
                            message_text: msg,
                        },
                    ),
                    None => None,
                },
                ButtonType::Share => Some(
                    ButtonV {
                        label,
                        action: "share"@,
                        phone_number: None,
                        web_link_url: None,
                        message_text: msg,
                    },
                ),
                ButtonType::Text => Some(
                    ButtonV {
                        label,
                        action: "message"@,
                        phone_number: None,
                        web_link_url: None,
                        message_text: msg,
                    },
                ),
            },
            _ => None,
        }
    }
}

/// Decoding of a button object: the `action` field selects the kind, the
/// remaining fields are read by key, and keys outside the kind's schema are
/// refused.
pub open spec fn spec_dec_button(v: JsonVal) -> Option<ButtonV> {
    match v {
        JsonVal::Obj(p) => if !keys_unique(p) {
            None
        } else {
            match req_str_field(p, "action"@) {
                Some(a) => spec_dec_button_fields(p, spec_action_kind(a)),
                None => None,
            }
        },
        _ => None,
    }
}

impl Button {
    /// A button of the given kind, with an empty label and no optional
    /// fields.
    pub fn new(t: ButtonType) -> (r: Button)
        ensures
            r@ == (ButtonV {
                label: Seq::<char>::empty(),
                action: spec_action_of(t),
                phone_number: None,
                web_link_url: None,
                message_text: None,
            }),
    {
        let action = match t {
            ButtonType::Call => String::from_str("phone"),
            ButtonType::Share => String::from_str("share"),
            ButtonType::Link => String::from_str("webLink"),
            ButtonType::Text => String::from_str("message"),
        };
        Button { label: String::new(), action, phone_number: None, web_link_url: None, message_text: None }
    }

    /// A phone button with its label and number.
    pub fn call(label: &str, number: &str) -> (r: Button)
        ensures
            r@ == (ButtonV {
                label: label@,
                action: "phone"@,
                phone_number: Some(number@),
                web_link_url: None,
                message_text: None,
            }),
            r@.wf(),
    {
        proof {
            lemma_action_lits();
        }
        Button {
            label: String::from_str(label),
            action: String::from_str("phone"),
            phone_number: Some(String::from_str(number)),
            web_link_url: None,
            message_text: None,
        }
    }

    /// A share button with its label.
    pub fn share(label: &str) -> (r: Button)
        ensures
            r@ == (ButtonV {
                label: label@,
                action: "share"@,
                phone_number: None,
                web_link_url: None,
                message_text: None,
            }),
            r@.wf(),
    {
        proof {
            lemma_action_lits();
        }
        Button {
            label: String::from_str(label),
            action: String::from_str("share"),
            phone_number: None,
            web_link_url: None,
            message_text: None,
        }
    }

    /// A link button with its label and URL.
    pub fn link(label: &str, url: &str) -> (r: Button)
        ensures
            r@ == (ButtonV {
                label: label@,
                action: "webLink"@,
                phone_number: None,
                web_link_url: Some(url@),
                message_text: None,
            }),
            r@.wf(),
    {
        proof {
            lemma_action_lits();
        }
        Button {
            label: String::from_str(label),
            action: String::from_str("webLink"),
            phone_number: None,
            web_link_url: Some(String::from_str(url)),
            message_text: None,
        }
    }

    /// A text button with its label.
    pub fn text(label: &str) -> (r: Button)
        ensures
            r@ == (ButtonV {
                label: label@,
                action: "message"@,
                phone_number: None,
                web_link_url: None,
                message_text: None,
            }),
            r@.wf(),
    {
        proof {
            lemma_action_lits();
        }
        Button {
            label: String::from_str(label),
            action: String::from_str("message"),
            phone_number: None,
            web_link_url: None,
            message_text: None,
        }
    }

    /// Sets the phone number.
    pub fn set_number(self, number: &str) -> (r: Button)
        ensures
            r@ == (ButtonV { phone_number: Some(number@), ..self@ }),
    {
        Button { phone_number: Some(String::from_str(number)), ..self }
    }

    /// Sets the label.
    pub fn set_label(self, label: &str) -> (r: Button)
        ensures
            r@ == (ButtonV { label: label@, ..self@ }),
    {
        Button { label: String::from_str(label), ..self }
    }

    /// Sets the spoken message text.
    pub fn set_msg(self, message: &str) -> (r: Button)
        ensures
            r@ == (ButtonV { message_text: Some(message@), ..self@ }),
    {
        Button { message_text: Some(String::from_str(message)), ..self }
    }

    /// Sets the link URL.
    pub fn set_link(self, link: &str) -> (r: Button)
        ensures
            r@ == (ButtonV { web_link_url: Some(link@), ..self@ }),
    {
        Button { web_link_url: Some(String::from_str(link)), ..self }
    }

    /// Encodes this button as its wire object.
    pub fn encode(&self) -> (r: JsonValue)
        ensures
            r@ == spec_enc_button(self@),
    {
        let mut o: Vec<(String, JsonValue)> = Vec::new();
        obj_push(&mut o, "label", JsonValue::Str(self.label.clone()));
        obj_push(&mut o, "action", JsonValue::Str(self.action.clone()));
        if str_eq(&self.action, "phone") {
            match &self.phone_number {
                Some(p) => obj_push(&mut o, "phoneNumber", JsonValue::Str(p.clone())),
                None => obj_push(&mut o, "phoneNumber", JsonValue::Str(String::from_str("0"))),
            }
        } else {
            if let Some(p) = &self.phone_number {
                obj_push(&mut o, "phoneNumber", JsonValue::Str(p.clone()));
            }
        }
        if let Some(u) = &self.web_link_url {
            obj_push(&mut o, "webLinkUrl", JsonValue::Str(u.clone()));
        }
        if let Some(m) = &self.message_text {
            obj_push(&mut o, "messageText", JsonValue::Str(m.clone()));
        }
        let r = JsonValue::Obj(o);
        proof {
            assert(r@ matches JsonVal::Obj(p) && p =~= (seq![
                ("label"@, JsonVal::Str(self@.label)),
                ("action"@, JsonVal::Str(self@.action)),
            ] + phone_entry(self@) + opt_str_entry("webLinkUrl"@, self@.web_link_url)
                + opt_str_entry("messageText"@, self@.message_text)));
        }
        r
    }

    /// Decodes a button from its wire object.
    pub fn decode(v: &JsonValue) -> (r: Result<Button, DecodeError>)
        ensures
            match r {
                Ok(b) => spec_dec_button(v@) == Some(b@),
                Err(_) => spec_dec_button(v@) is None,
            },
    {
        let pairs = match v {
            JsonValue::Obj(pairs) => pairs,
            _ => { return Err(DecodeError::WrongType); },
        };
        let action = match get_req_str(pairs, "action") {
            Ok(a) => a,
            Err(e) => { return Err(e); },
        };
        let kind = if str_eq(&action, "phone") {
            ButtonType::Call
        } else if str_eq(&action, "webLink") {
            ButtonType::Link
        } else if str_eq(&action, "share") {
            ButtonType::Share
        } else {
            ButtonType::Text
        };
        let allowed: Vec<&str> = match kind {
            ButtonType::Call => vec!["label", "action", "phoneNumber", "messageText"],
            ButtonType::Link => vec!["label", "action", "webLinkUrl", "messageText"],
            ButtonType::Share => vec!["label", "action", "messageText"],
            ButtonType::Text => vec!["label", "action", "messageText"],
        };
        proof {
            assert(crate::json::strs_view(allowed@) =~= button_allowed_keys(kind));
        }
        if !keys_ok(pairs, &allowed) {
            return Err(DecodeError::UnknownField);
        }
        let label = match get_req_str(pairs, "label") {
            Ok(l) => l,
            Err(e) => { return Err(e); },
        };
        let msg = match get_opt_str(pairs, "messageText") {
            Ok(m) => m,
            Err(e) => { return Err(e); },
        };
        match kind {
            ButtonType::Call => {
                let ph = match get_opt_str(pairs, "phoneNumber") {
                    Ok(p) => p,
                    Err(e) => { return Err(e); },
                };
                let number = match ph {
                    Some(p) => p,
                    None => String::from_str("0"),
                };
                Ok(Button {
                    label,
                    action: String::from_str("phone"),
                    phone_number: Some(number),
                    web_link_url: None,
                    message_text: msg,
                })
            },
            ButtonType::Link => {
                let url = match get_req_str(pairs, "webLinkUrl") {
                    Ok(u) => u,
                    Err(e) => { return Err(e); },
                };
                Ok(Button {
                    label,
                    action: String::from_str("webLink"),
                    phone_number: None,
                    web_link_url: Some(url),
                    message_text: msg,
                })
            },
            ButtonType::Share => Ok(Button {
                label,
                action: String::from_str("share"),
                phone_number: None,
                web_link_url: None,
                message_text: msg,
            }),
            ButtonType::Text => Ok(Button {
                label,
                action: String::from_str("message"),
                phone_number: None,
                web_link_url: None,
                message_text: msg,
            }),
        }
    }
}

/// The five button field keys are pairwise distinct.
pub proof fn lemma_button_keys()
    ensures
        "label"@ != "action"@,
        "label"@ != "phoneNumber"@,
        "label"@ != "webLinkUrl"@,
        "label"@ != "messageText"@,
        "action"@ != "phoneNumber"@,
        "action"@ != "webLinkUrl"@,
        "action"@ != "messageText"@,
        "phoneNumber"@ != "webLinkUrl"@,
        "phoneNumber"@ != "messageText"@,
        "webLinkUrl"@ != "messageText"@,
{
    reveal_strlit("label");
    reveal_strlit("action");
    reveal_strlit("phoneNumber");
    reveal_strlit("webLinkUrl");
    reveal_strlit("messageText");
    assert("label"@.len() == 5 && "action"@.len() == 6 && "phoneNumber"@.len() == 11
        && "webLinkUrl"@.len() == 10 && "messageText"@.len() == 11);
    assert("phoneNumber"@[0] == 'p' && "messageText"@[0] == 'm');
}

/// Round trip: decoding an encoded button gives the button back, for every
/// well-formed button.
pub proof fn lemma_button_round_trip(b: ButtonV)
    requires
        b.wf(),
    ensures
        spec_dec_button(spec_enc_button(b)) == Some(b),
{
    reveal_with_fuel(obj_lookup, 10);
    lemma_button_keys();
    lemma_action_lits();
    let base = seq![("label"@, JsonVal::Str(b.label)), ("action"@, JsonVal::Str(b.action))];
    let p = base + phone_entry(b) + opt_str_entry("webLinkUrl"@, b.web_link_url) + opt_str_entry(
        "messageText"@,
        b.message_text,
    );
    assert(spec_enc_button(b) == JsonVal::Obj(p));
    let k = spec_action_kind(b.action);
    let allowed = button_allowed_keys(k);
    if b.action == "phone"@ {
        let ph = b.phone_number->Some_0;
        match b.message_text {
            Some(m) => {
                let q = seq![
                    ("label"@, JsonVal::Str(b.label)),
                    ("action"@, JsonVal::Str(b.action)),
                    ("phoneNumber"@, JsonVal::Str(ph)),
                    ("messageText"@, JsonVal::Str(m)),
                ];
                assert(p =~= q);
                assert(allowed.contains("label"@) && allowed.contains("action"@)
                    && allowed.contains("phoneNumber"@) && allowed.contains("messageText"@)) by {
                    assert(allowed[0] == "label"@ && allowed[1] == "action"@ && allowed[2]
                        == "phoneNumber"@ && allowed[3] == "messageText"@);
                }
                assert(keys_unique(q));
                assert(keys_within(q, allowed));
            },
            None => {
                let q = seq![
                    ("label"@, JsonVal::Str(b.label)),
                    ("action"@, JsonVal::Str(b.action)),
                    ("phoneNumber"@, JsonVal::Str(ph)),
                ];
                assert(p =~= q);
                assert(allowed.contains("label"@) && allowed.contains("action"@)
                    && allowed.contains("phoneNumber"@)) by {
                    assert(allowed[0] == "label"@ && allowed[1] == "action"@ && allowed[2]
                        == "phoneNumber"@);
                }
                assert(keys_unique(q));
                assert(keys_within(q, allowed));
            },
        }
    } else if b.action == "webLink"@ {
        let u = b.web_link_url->Some_0;
        match b.message_text {
            Some(m) => {
                let q = seq![
                    ("label"@, JsonVal::Str(b.label)),
                    ("action"@, JsonVal::Str(b.action)),
                    ("webLinkUrl"@, JsonVal::Str(u)),
                    ("messageText"@, JsonVal::Str(m)),
                ];
                assert(p =~= q);
                assert(allowed.contains("label"@) && allowed.contains("action"@)
                    && allowed.contains("webLinkUrl"@) && allowed.contains("messageText"@)) by {
                    assert(allowed[0] == "label"@ && allowed[1] == "action"@ && allowed[2]
                        == "webLinkUrl"@ && allowed[3] == "messageText"@);
                }
                assert(keys_unique(q));
                assert(keys_within(q, allowed));
            },
            None => {
                let q = seq![
                    ("label"@, JsonVal::Str(b.label)),
                    ("action"@, JsonVal::Str(b.action)),
                    ("webLinkUrl"@, JsonVal::Str(u)),
                ];
                assert(p =~= q);
                assert(allowed.contains("label"@) && allowed.contains("action"@)
                    && allowed.contains("webLinkUrl"@)) by {
                    assert(allowed[0] == "label"@ && allowed[1] == "action"@ && allowed[2]
                        == "webLinkUrl"@);
                }
                assert(keys_unique(q));
                assert(keys_within(q, allowed));
            },
        }
    } else {
        match b.message_text {
            Some(m) => {
                let q = seq![
                    ("label"@, JsonVal::Str(b.label)),
                    ("action"@, JsonVal::Str(b.action)),
                    ("messageText"@, JsonVal::Str(m)),
                ];
                assert(p =~= q);
                assert(allowed.contains("label"@) && allowed.contains("action"@)
                    && allowed.contains("messageText"@)) by {
                    assert(allowed[0] == "label"@ && allowed[1] == "action"@ && allowed[2]
                        == "messageText"@);
                }
                assert(keys_unique(q));
                assert(keys_within(q, allowed));
            },
            None => {
                let q = seq![
                    ("label"@, JsonVal::Str(b.label)),
                    ("action"@, JsonVal::Str(b.action)),
                ];
                assert(p =~= q);
                assert(allowed.contains("label"@) && allowed.contains("action"@)) by {
                    assert(allowed[0] == "label"@ && allowed[1] == "action"@);
                }
                assert(keys_unique(q));
                assert(keys_within(q, allowed));
            },
        }
    }
}

/// Models of a sequence of button values.
pub open spec fn buttons_view(s: Seq<Button>) -> Seq<ButtonV> {
    Seq::new(s.len(), |i: int| s[i]@)
}

/// Encoded forms of a sequence of buttons, in order.
pub open spec fn spec_enc_buttons(s: Seq<ButtonV>) -> Seq<JsonVal> {
    Seq::new(s.len(), |i: int| spec_enc_button(s[i]))
}

/// Decoding of a sequence of buttons; any failing element fails the whole.
pub open spec fn spec_dec_buttons(s: Seq<JsonVal>) -> Option<Seq<ButtonV>>
    decreases s,
{
    if s.len() == 0 {
        Some(Seq::empty())
    } else {
        match (spec_dec_buttons(s.drop_last()), spec_dec_button(s.last())) {
            (Some(rest), Some(x)) => Some(rest.push(x)),
            _ => None,
        }
    }
}

proof fn lemma_dec_buttons_prefix_none(s: Seq<JsonVal>, i: int)
    requires
        0 <= i <= s.len(),
        spec_dec_buttons(s.take(i)) is None,
    ensures
        spec_dec_buttons(s) is None,
    decreases s.len() - i,
{
    if i == s.len() {
        assert(s.take(i) =~= s);
    } else {
        assert(s.take(i + 1).drop_last() =~= s.take(i));
        lemma_dec_buttons_prefix_none(s, i + 1);
    }
}

/// Encodes each element, keeping order.
pub fn encode_buttons(v: &Vec<Button>) -> (r: Vec<JsonValue>)
    ensures
        vals_view(r@) == spec_enc_buttons(buttons_view(v@)),
{
    let mut out: Vec<JsonValue> = Vec::new();
    let n = v.len();
    let mut i: usize = 0;
    while i < n
        invariant
            n == v.len(),
            0 <= i <= n,
            vals_view(out@) == spec_enc_buttons(buttons_view(v@)).take(i as int),
        decreases n - i,
    {
        arr_push(&mut out, v[i].encode());
        proof {
            assert(vals_view(out@) =~= spec_enc_buttons(buttons_view(v@)).take(i as int + 1));
        }
        i = i + 1;
    }
    proof {
        assert(spec_enc_buttons(buttons_view(v@)).take(n as int) =~= spec_enc_buttons(buttons_view(v@)));
    }
    out
}

/// Decodes each element, keeping order; the first failure is reported.
pub fn decode_buttons(v: &Vec<JsonValue>) -> (r: Result<Vec<Button>, DecodeError>)
    ensures
        match r {
            Ok(xs) => spec_dec_buttons(vals_view(v@)) == Some(buttons_view(xs@)),
            Err(_) => spec_dec_buttons(vals_view(v@)) is None,
        },
{
    let mut out: Vec<Button> = Vec::new();
    let n = v.len();
    let mut i: usize = 0;
    while i < n
        invariant
            n == v.len(),
            0 <= i <= n,
            out.len() == i,
            spec_dec_buttons(vals_view(v@).take(i as int)) == Some(buttons_view(out@)),
        decreases n - i,
    {
        proof {
            lemma_vals_view_len(v@);
            lemma_vals_view_index(v@, i as int);
            assert(vals_view(v@).take(i as int + 1).drop_last() =~= vals_view(v@).take(i as int));
            assert(vals_view(v@).take(i as int + 1).last() == v@[i as int]@);
        }
        match Button::decode(&v[i]) {
            Ok(x) => {
                let ghost prev = buttons_view(out@);
                out.push(x);
                proof {
                    assert(buttons_view(out@) =~= prev.push(x@));
                }
            },
            Err(e) => {
                proof {
                    assert(spec_dec_buttons(vals_view(v@).take(i as int + 1)) is None);
                    lemma_dec_buttons_prefix_none(vals_view(v@), i as int + 1);
                }
                return Err(e);
            },
        }
        i = i + 1;
    }
    proof {
        lemma_vals_view_len(v@);
        assert(vals_view(v@).take(n as int) =~= vals_view(v@));
    }
    Ok(out)
}

/// Round trip for a whole sequence of buttons.
pub proof fn lemma_buttons_round_trip(s: Seq<ButtonV>)
    requires
        forall|i: int| 0 <= i < s.len() ==> (#[trigger] s[i]).wf(),
    ensures
        spec_dec_buttons(spec_enc_buttons(s)) == Some(s),
    decreases s,
{
    if s.len() == 0 {
        assert(spec_enc_buttons(s) =~= Seq::<JsonVal>::empty());
    } else {
        assert(spec_enc_buttons(s).drop_last() =~= spec_enc_buttons(s.drop_last()));
        assert(spec_enc_buttons(s).last() == spec_enc_button(s.last()));
        lemma_buttons_round_trip(s.drop_last());
        lemma_button_round_trip(s.last());
        assert(s.drop_last().push(s.last()) =~= s);
        assert(spec_dec_buttons(spec_enc_buttons(s)) == Some(s));
    }
}

/// What decoding a button array from text yields.
pub open spec fn spec_buttons_from_text(t: Seq<char>) -> Option<Seq<ButtonV>> {
    match crate::parse::spec_parse(t) {
        Some(JsonVal::Arr(a)) => spec_dec_buttons(a),
        _ => None,
    }
}

/// The compact wire text of an array of buttons.
pub fn buttons_to_string(v: &Vec<Button>) -> (r: String)
    ensures
        r@ == crate::text::text_of(JsonVal::Arr(spec_enc_buttons(buttons_view(v@)))),
{
    let arr = JsonValue::Arr(encode_buttons(v));
    crate::text::value_to_string(&arr)
}

/// Decodes an array of buttons from its compact wire text.
pub fn buttons_from_str(s: &str) -> (r: Result<Vec<Button>, DecodeError>)
    ensures
        match r {
            Ok(bs) => spec_buttons_from_text(s@) == Some(buttons_view(bs@)),
            Err(_) => spec_buttons_from_text(s@) is None,
        },
{
    match crate::parse::parse_json(s) {
        Ok(v) => match v {
            JsonValue::Arr(a) => decode_buttons(&a),
            _ => Err(DecodeError::WrongType),
        },
        Err(e) => Err(e),
    }
}

/// An encoded button holds no `null`.
pub proof fn lemma_enc_button_no_null(b: ButtonV)
    ensures
        !crate::json::has_null(spec_enc_button(b)),
{
    let pa = seq![("label"@, JsonVal::Str(b.label)), ("action"@, JsonVal::Str(b.action))];
    let pb = phone_entry(b);
    let pc = opt_str_entry("webLinkUrl"@, b.web_link_url);
    let pd = opt_str_entry("messageText"@, b.message_text);
    assert(pa =~= seq![("label"@, JsonVal::Str(b.label))] + seq![
        ("action"@, JsonVal::Str(b.action)),
    ]);
    crate::json::lemma_has_null_pairs_single("label"@, JsonVal::Str(b.label));
    crate::json::lemma_has_null_pairs_single("action"@, JsonVal::Str(b.action));
    crate::json::lemma_has_null_pairs_concat(
        seq![("label"@, JsonVal::Str(b.label))],
        seq![("action"@, JsonVal::Str(b.action))],
    );
    if b.action == "phone"@ {
        crate::json::lemma_has_null_pairs_single(
            "phoneNumber"@,
            JsonVal::Str(
                match b.phone_number {
                    Some(p) => p,
                    None => "0"@,
                },
            ),
        );
    } else {
        crate::json::lemma_opt_str_entry_no_null("phoneNumber"@, b.phone_number);
    }
    crate::json::lemma_opt_str_entry_no_null("webLinkUrl"@, b.web_link_url);
    crate::json::lemma_opt_str_entry_no_null("messageText"@, b.message_text);
    crate::json::lemma_has_null_pairs_concat(pa, pb);
    crate::json::lemma_has_null_pairs_concat(pa + pb, pc);
    crate::json::lemma_has_null_pairs_concat(pa + pb + pc, pd);
}

/// An encoded button sequence holds no `null`.
pub proof fn lemma_enc_buttons_no_null(s: Seq<ButtonV>)
    ensures
        !crate::json::has_null_seq(spec_enc_buttons(s)),
{
    crate::json::lemma_has_null_seq_iff(spec_enc_buttons(s));
    assert forall|i: int| 0 <= i < spec_enc_buttons(s).len() implies !crate::json::has_null(
        #[trigger] spec_enc_buttons(s)[i],
    ) by {
        lemma_enc_button_no_null(s[i]);
    }
}

/// A button's optional fields leave no trace when absent: the encoded
/// object binds `messageText` exactly when a message was set, `webLinkUrl`
/// exactly when a link was set, and — away from the phone kind, which
/// always carries a number — `phoneNumber` exactly when a number was set.
pub proof fn lemma_button_optional_fields(b: ButtonV)
    ensures
        spec_enc_button(b) matches JsonVal::Obj(p) && (obj_lookup(p, "messageText"@) is Some
            <==> b.message_text is Some) && (obj_lookup(p, "webLinkUrl"@) is Some
            <==> b.web_link_url is Some) && (b.action != "phone"@ ==> (obj_lookup(
            p,
            "phoneNumber"@,
        ) is Some <==> b.phone_number is Some)),
{
    lemma_button_keys();
    let pa = seq![("label"@, JsonVal::Str(b.label)), ("action"@, JsonVal::Str(b.action))];
    let pb = phone_entry(b);
    let pc = opt_str_entry("webLinkUrl"@, b.web_link_url);
    let pd = opt_str_entry("messageText"@, b.message_text);
    assert(pa =~= seq![("label"@, JsonVal::Str(b.label))] + seq![
        ("action"@, JsonVal::Str(b.action)),
    ]);
    crate::json::lemma_lookup_single("label"@, JsonVal::Str(b.label));
    crate::json::lemma_lookup_single("action"@, JsonVal::Str(b.action));
    crate::json::lemma_lookup_concat(
        seq![("label"@, JsonVal::Str(b.label))],
        seq![("action"@, JsonVal::Str(b.action))],
    );
    if b.action == "phone"@ {
        crate::json::lemma_lookup_single(
            "phoneNumber"@,
            JsonVal::Str(
                match b.phone_number {
                    Some(p) => p,
                    None => "0"@,
                },
            ),
        );
    } else {
        crate::json::lemma_opt_str_entry("phoneNumber"@, b.phone_number);
    }
    crate::json::lemma_opt_str_entry("webLinkUrl"@, b.web_link_url);
    crate::json::lemma_opt_str_entry("messageText"@, b.message_text);
    crate::json::lemma_lookup_concat(pa, pb);
    crate::json::lemma_lookup_concat(pa + pb, pc);
    crate::json::lemma_lookup_concat(pa + pb + pc, pd);
}

/// An encoded button holds no over-wide integer.
pub proof fn lemma_enc_button_no_big_int(b: ButtonV)
    ensures
        !crate::json::has_big_int(spec_enc_button(b)),
{
    let pa = seq![("label"@, JsonVal::Str(b.label)), ("action"@, JsonVal::Str(b.action))];
    let pb = phone_entry(b);
    let pc = opt_str_entry("webLinkUrl"@, b.web_link_url);
    let pd = opt_str_entry("messageText"@, b.message_text);
    assert(pa =~= seq![("label"@, JsonVal::Str(b.label))] + seq![
        ("action"@, JsonVal::Str(b.action)),
    ]);
    crate::json::lemma_has_big_int_pairs_single("label"@, JsonVal::Str(b.label));
    crate::json::lemma_has_big_int_pairs_single("action"@, JsonVal::Str(b.action));
    crate::json::lemma_has_big_int_pairs_concat(
        seq![("label"@, JsonVal::Str(b.label))],
        seq![("action"@, JsonVal::Str(b.action))],
    );
    if b.action == "phone"@ {
        crate::json::lemma_has_big_int_pairs_single(
            "phoneNumber"@,
            JsonVal::Str(
                match b.phone_number {
                    Some(p) => p,
                    None => "0"@,
                },
            ),
        );
    } else {
        crate::json::lemma_opt_str_entry_no_big_int("phoneNumber"@, b.phone_number);
    }
    crate::json::lemma_opt_str_entry_no_big_int("webLinkUrl"@, b.web_link_url);
    crate::json::lemma_opt_str_entry_no_big_int("messageText"@, b.message_text);
    crate::json::lemma_has_big_int_pairs_concat(pa, pb);
    crate::json::lemma_has_big_int_pairs_concat(pa + pb, pc);
    crate::json::lemma_has_big_int_pairs_concat(pa + pb + pc, pd);
}

/// An encoded button sequence holds no over-wide integer.
pub proof fn lemma_enc_buttons_no_big_int(s: Seq<ButtonV>)
    ensures
        !crate::json::has_big_int_seq(spec_enc_buttons(s)),
{
    crate::json::lemma_has_big_int_seq_iff(spec_enc_buttons(s));
    assert forall|i: int| 0 <= i < spec_enc_buttons(s).len() implies !crate::json::has_big_int(
        #[trigger] spec_enc_buttons(s)[i],
    ) by {
        lemma_enc_button_no_big_int(s[i]);
    }
}

/// Round trip through the wire text itself: printing a well-formed button
/// array and parsing the text back yields the same buttons.
pub proof fn lemma_buttons_text_round_trip(s: Seq<ButtonV>)
    requires
        forall|i: int| 0 <= i < s.len() ==> (#[trigger] s[i]).wf(),
    ensures
        spec_buttons_from_text(
            crate::text::text_of(JsonVal::Arr(spec_enc_buttons(s))),
        ) == Some(s),
{
    lemma_enc_buttons_no_big_int(s);
    crate::parse::lemma_parse_of_text(JsonVal::Arr(spec_enc_buttons(s)));
    lemma_buttons_round_trip(s);
}

} // verus!
