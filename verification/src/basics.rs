//! The basic building blocks of a response: links, list items, quick
//! replies, thumbnails, and the outputs they are assembled into.

use vstd::prelude::*;
use vstd::string::StringExecFns;

use crate::json::{
    obj_lookup, keys_unique, keys_within, pairs_view, req_str_field, opt_str_field, opt_i32_field,
    opt_bool_field, obj_push, keys_ok, get_req_str, get_opt_str, get_opt_i32, get_opt_bool,
    obj_get, opt_view, opt_str_entry, opt_i32_entry, flag_entry, opt_val_entry, strs_view,
    lemma_lookup_concat, lemma_lookup_single, lemma_opt_str_entry,
    lemma_opt_i32_entry, lemma_flag_entry, lemma_opt_val_entry, lemma_keys_unique_concat,
    lemma_keys_within_concat, arr_push, vals_view, lemma_vals_view_len, lemma_vals_view_index,
    lemma_pairs_view_len, lemma_pairs_view_index, str_eq, DecodeError, JsonVal, JsonValue,
};

verus! {

broadcast use vstd::seq::group_seq_axioms, vstd::string::group_string_axioms;

/// A web link target.
#[derive(Debug)]
pub struct Link {
    pub web: String,
}

/// Model of a link.
#[verifier::ext_equal]
pub struct LinkV {
    pub web: Seq<char>,
}

impl View for Link {
    type V = LinkV;

    open spec fn view(&self) -> LinkV {
        LinkV { web: self.web@ }
    }
}

/// Encoding of a link: a one-field object.
pub open spec fn spec_enc_link(l: LinkV) -> JsonVal {
    JsonVal::Obj(seq![("web"@, JsonVal::Str(l.web))])
}

/// Decoding of a link object.
pub open spec fn spec_dec_link(v: JsonVal) -> Option<LinkV> {
    match v {
        JsonVal::Obj(p) => if !keys_unique(p) || !keys_within(p, seq!["web"@]) {
            None
        } else {
            match req_str_field(p, "web"@) {
                Some(w) => Some(LinkV { web: w }),
                None => None,
            }
        },
        _ => None,
    }
}

impl Link {
    /// Encodes this link as its wire object.
    pub fn encode(&self) -> (r: JsonValue)
        ensures
            r@ == spec_enc_link(self@),
    {
        let mut o: Vec<(String, JsonValue)> = Vec::new();
        obj_push(&mut o, "web", JsonValue::Str(self.web.clone()));
        let r = JsonValue::Obj(o);
        proof {
            assert(r@ matches JsonVal::Obj(p) && p =~= seq![("web"@, JsonVal::Str(self@.web))]);
        }
        r
    }

    /// Decodes a link from its wire object.
    pub fn decode(v: &JsonValue) -> (r: Result<Link, DecodeError>)
        ensures
            match r {
                Ok(l) => spec_dec_link(v@) == Some(l@),
                Err(_) => spec_dec_link(v@) is None,
            },
    {
        let pairs = match v {
            JsonValue::Obj(pairs) => pairs,
            _ => { return Err(DecodeError::WrongType); },
        };
        let allowed: Vec<&str> = vec!["web"];
        proof {
            assert(strs_view(allowed@) =~= seq!["web"@]);
        }
        if !keys_ok(pairs, &allowed) {
            return Err(DecodeError::UnknownField);
        }
        let web = match get_req_str(pairs, "web") {
            Ok(w) => w,
            Err(e) => { return Err(e); },
        };
        Ok(Link { web })
    }
}

/// Round trip: decoding an encoded link gives the link back.
pub proof fn lemma_link_round_trip(l: LinkV)
    ensures
        spec_dec_link(spec_enc_link(l)) == Some(l),
{
    let p = seq![("web"@, JsonVal::Str(l.web))];
    lemma_lookup_single("web"@, JsonVal::Str(l.web));
    assert(keys_unique(p));
    assert(seq!["web"@].contains("web"@)) by {
        assert(seq!["web"@][0] == "web"@);
    }
    assert(keys_within(p, seq!["web"@]));
}

/// A plain title holder, used for a list card's header.
#[derive(Debug)]
pub struct Title {
    pub title: String,
}

/// Model of a title.
#[verifier::ext_equal]
pub struct TitleV {
    pub title: Seq<char>,
}

impl View for Title {
    type V = TitleV;

    open spec fn view(&self) -> TitleV {
        TitleV { title: self.title@ }
    }
}

/// Encoding of a title: a one-field object.
pub open spec fn spec_enc_title(t: TitleV) -> JsonVal {
    JsonVal::Obj(seq![("title"@, JsonVal::Str(t.title))])
}

/// Decoding of a title object.
pub open spec fn spec_dec_title(v: JsonVal) -> Option<TitleV> {
    match v {
        JsonVal::Obj(p) => if !keys_unique(p) || !keys_within(p, seq!["title"@]) {
            None
        } else {
            match req_str_field(p, "title"@) {
                Some(t) => Some(TitleV { title: t }),
                None => None,
            }
        },
        _ => None,
    }
}

impl Title {
    /// Encodes this title as its wire object.
    pub fn encode(&self) -> (r: JsonValue)
        ensures
            r@ == spec_enc_title(self@),
    {
        let mut o: Vec<(String, JsonValue)> = Vec::new();
        obj_push(&mut o, "title", JsonValue::Str(self.title.clone()));
        let r = JsonValue::Obj(o);
        proof {
            assert(r@ matches JsonVal::Obj(p) && p =~= seq![("title"@, JsonVal::Str(self@.title))]);
        }
        r
    }

    /// Decodes a title from its wire object.
    pub fn decode(v: &JsonValue) -> (r: Result<Title, DecodeError>)
        ensures
            match r {
                Ok(t) => spec_dec_title(v@) == Some(t@),
                Err(_) => spec_dec_title(v@) is None,
            },
    {
        let pairs = match v {
            JsonValue::Obj(pairs) => pairs,
            _ => { return Err(DecodeError::WrongType); },
        };
        let allowed: Vec<&str> = vec!["title"];
        proof {
            assert(strs_view(allowed@) =~= seq!["title"@]);
        }
        if !keys_ok(pairs, &allowed) {
            return Err(DecodeError::UnknownField);
        }
        let title = match get_req_str(pairs, "title") {
            Ok(t) => t,
            Err(e) => { return Err(e); },
        };
        Ok(Title { title })
    }
}

/// Round trip: decoding an encoded title gives the title back.
pub proof fn lemma_title_round_trip(t: TitleV)
    ensures
        spec_dec_title(spec_enc_title(t)) == Some(t),
{
    let p = seq![("title"@, JsonVal::Str(t.title))];
    lemma_lookup_single("title"@, JsonVal::Str(t.title));
    assert(keys_unique(p));
    assert(seq!["title"@].contains("title"@)) by {
        assert(seq!["title"@][0] == "title"@);
    }
    assert(keys_within(p, seq!["title"@]));
}

/// The encoded form of an optional link.
pub open spec fn enc_opt_link(o: Option<LinkV>) -> Option<JsonVal> {
    match o {
        Some(l) => Some(spec_enc_link(l)),
        None => None,
    }
}

/// An optional nested link field: an absent key is `Some(None)`, a value
/// that is no link object is an error.
pub open spec fn opt_link_field(p: Seq<(Seq<char>, JsonVal)>, key: Seq<char>) -> Option<
    Option<LinkV>,
> {
    match obj_lookup(p, key) {
        None => Some(None),
        Some(lv) => match spec_dec_link(lv) {
            Some(l) => Some(Some(l)),
            None => None,
        },
    }
}

/// Model of an optional link value.
pub open spec fn opt_link_view(o: Option<Link>) -> Option<LinkV> {
    match o {
        Some(l) => Some(l@),
        None => None,
    }
}

fn get_opt_link(pairs: &Vec<(String, JsonValue)>, key: &str) -> (r: Result<
    Option<Link>,
    DecodeError,
>)
    ensures
        match r {
            Ok(Some(l)) => opt_link_field(pairs_view(pairs@), key@) == Some(Some(l@)),
            Ok(None) => opt_link_field(pairs_view(pairs@), key@) == Some(None::<LinkV>),
            Err(_) => opt_link_field(pairs_view(pairs@), key@) is None,
        },
{
    match obj_get(pairs, key) {
        Some(v) => match Link::decode(v) {
            Ok(l) => Ok(Some(l)),
            Err(e) => Err(e),
        },
        None => Ok(None),
    }
}

/// One row of a list card: a title with an optional description, image and
/// link.
#[derive(Debug)]
pub struct ListItem {
    pub title: String,
    pub description: Option<String>,
    pub image_url: Option<String>,
    pub link: Option<Link>,
}

/// Model of a list item.
#[verifier::ext_equal]
pub struct ListItemV {
    pub title: Seq<char>,
    pub description: Option<Seq<char>>,
    pub image_url: Option<Seq<char>>,
    pub link: Option<LinkV>,
}

impl View for ListItem {
    type V = ListItemV;

    open spec fn view(&self) -> ListItemV {
        ListItemV {
            title: self.title@,
            description: opt_view(self.description),
            image_url: opt_view(self.image_url),
            link: opt_link_view(self.link),
        }
    }
}

/// Encoding of a list item: `title`, then each present optional field.
pub open spec fn spec_enc_list_item(it: ListItemV) -> JsonVal {
    JsonVal::Obj(
        seq![("title"@, JsonVal::Str(it.title))] + opt_str_entry("description"@, it.description)
            + opt_str_entry("imageUrl"@, it.image_url) + opt_val_entry(
            "link"@,
            enc_opt_link(it.link),
        ),
    )
}

/// The keys a list item object may hold.
pub open spec fn list_item_allowed_keys() -> Seq<Seq<char>> {
    seq!["title"@, "description"@, "imageUrl"@, "link"@]
}

/// Decoding of a list item object.
pub open spec fn spec_dec_list_item(v: JsonVal) -> Option<ListItemV> {
    match v {
        JsonVal::Obj(p) => if !keys_unique(p) || !keys_within(p, list_item_allowed_keys()) {
            None
        } else {
            match (req_str_field(p, "title"@), opt_str_field(p, "description"@), opt_str_field(
                p,
                "imageUrl"@,
            ), opt_link_field(p, "link"@)) {
                (Some(t), Some(d), Some(iu), Some(l)) => Some(
                    ListItemV { title: t, description: d, image_url: iu, link: l },
                ),
                _ => None,
            }
        },
        _ => None,
    }
}

impl ListItem {
    /// A list item with the given title and nothing else.
    pub fn new(title: &str) -> (r: ListItem)
        ensures
            r@ == (ListItemV {
                title: title@,
                description: None,
                image_url: None,
                link: None,
            }),
    {
        ListItem { title: String::from_str(title), description: None, image_url: None, link: None }
    }

    /// Sets the description.
    pub fn set_desc(self, desc: &str) -> (r: ListItem)
        ensures
            r@ == (ListItemV { description: Some(desc@), ..self@ }),
    {
        ListItem { description: Some(String::from_str(desc)), ..self }
    }

    /// Sets the image URL.
    pub fn set_image(self, url: &str) -> (r: ListItem)
        ensures
            r@ == (ListItemV { image_url: Some(url@), ..self@ }),
    {
        ListItem { image_url: Some(String::from_str(url)), ..self }
    }

    /// Sets the link target.
    pub fn set_link(self, url: &str) -> (r: ListItem)
        ensures
            r@ == (ListItemV { link: Some((LinkV { web: url@ })), ..self@ }),
    {
        ListItem { link: Some(Link { web: String::from_str(url) }), ..self }
    }

    /// Encodes this list item as its wire object.
    pub fn encode(&self) -> (r: JsonValue)
        ensures
            r@ == spec_enc_list_item(self@),
    {
        let mut o: Vec<(String, JsonValue)> = Vec::new();
        obj_push(&mut o, "title", JsonValue::Str(self.title.clone()));
        if let Some(d) = &self.description {
            obj_push(&mut o, "description", JsonValue::Str(d.clone()));
        }
        if let Some(iu) = &self.image_url {
            obj_push(&mut o, "imageUrl", JsonValue::Str(iu.clone()));
        }
        if let Some(l) = &self.link {
            obj_push(&mut o, "link", l.encode());
        }
        let r = JsonValue::Obj(o);
        proof {
            assert(r@ matches JsonVal::Obj(p) && p =~= (seq![("title"@, JsonVal::Str(self@.title))]
                + opt_str_entry("description"@, self@.description) + opt_str_entry(
                "imageUrl"@,
                self@.image_url,
            ) + opt_val_entry("link"@, enc_opt_link(self@.link))));
        }
        r
    }

    /// Decodes a list item from its wire object.
    pub fn decode(v: &JsonValue) -> (r: Result<ListItem, DecodeError>)
        ensures
            match r {
                Ok(it) => spec_dec_list_item(v@) == Some(it@),
                Err(_) => spec_dec_list_item(v@) is None,
            },
    {
        let pairs = match v {
            JsonValue::Obj(pairs) => pairs,
            _ => { return Err(DecodeError::WrongType); },
        };
        let allowed: Vec<&str> = vec!["title", "description", "imageUrl", "link"];
        proof {
            assert(strs_view(allowed@) =~= list_item_allowed_keys());
        }
        if !keys_ok(pairs, &allowed) {
            return Err(DecodeError::UnknownField);
        }
        let title = match get_req_str(pairs, "title") {
            Ok(t) => t,
            Err(e) => { return Err(e); },
        };
        let description = match get_opt_str(pairs, "description") {
            Ok(d) => d,
            Err(e) => { return Err(e); },
        };
        let image_url = match get_opt_str(pairs, "imageUrl") {
            Ok(iu) => iu,
            Err(e) => { return Err(e); },
        };
        let link = match get_opt_link(pairs, "link") {
            Ok(l) => l,
            Err(e) => { return Err(e); },
        };
        Ok(ListItem { title, description, image_url, link })
    }
}

/// The list item keys are pairwise distinct.
pub proof fn lemma_list_item_keys()
    ensures
        "title"@ != "description"@,
        "title"@ != "imageUrl"@,
        "title"@ != "link"@,
        "description"@ != "imageUrl"@,
        "description"@ != "link"@,
        "imageUrl"@ != "link"@,
{
    reveal_strlit("title");
    reveal_strlit("description");
    reveal_strlit("imageUrl");
    reveal_strlit("link");
    assert("title"@.len() == 5 && "description"@.len() == 11 && "imageUrl"@.len() == 8
        && "link"@.len() == 4);
}

/// Round trip: decoding an encoded list item gives the item back.
pub proof fn lemma_list_item_round_trip(it: ListItemV)
    ensures
        spec_dec_list_item(spec_enc_list_item(it)) == Some(it),
{
    lemma_list_item_keys();
    if let Some(l) = it.link {
        lemma_link_round_trip(l);
    }
    let pa = seq![("title"@, JsonVal::Str(it.title))];
    let pb = opt_str_entry("description"@, it.description);
    let pc = opt_str_entry("imageUrl"@, it.image_url);
    let pd = opt_val_entry("link"@, enc_opt_link(it.link));
    let p = pa + pb + pc + pd;
    lemma_lookup_single("title"@, JsonVal::Str(it.title));
    lemma_opt_str_entry("description"@, it.description);
    lemma_opt_str_entry("imageUrl"@, it.image_url);
    lemma_opt_val_entry("link"@, enc_opt_link(it.link));
    lemma_lookup_concat(pa, pb);
    lemma_lookup_concat(pa + pb, pc);
    lemma_lookup_concat(pa + pb + pc, pd);
    lemma_keys_unique_concat(pa, pb);
    lemma_keys_unique_concat(pa + pb, pc);
    lemma_keys_unique_concat(pa + pb + pc, pd);
    let allowed = list_item_allowed_keys();
    assert(allowed.contains("title"@) && allowed.contains("description"@) && allowed.contains(
        "imageUrl"@,
    ) && allowed.contains("link"@)) by {
        assert(allowed[0] == "title"@ && allowed[1] == "description"@ && allowed[2] == "imageUrl"@
            && allowed[3] == "link"@);
    }
    assert(keys_within(pa, allowed));
    assert(keys_within(pb, allowed));
    assert(keys_within(pc, allowed));
    assert(keys_within(pd, allowed));
    lemma_keys_within_concat(pa, pb, allowed);
    lemma_keys_within_concat(pa + pb, pc, allowed);
    lemma_keys_within_concat(pa + pb + pc, pd, allowed);
    assert(spec_dec_list_item(spec_enc_list_item(it)) == Some(it));
}

/// A suggested follow-up utterance shown alongside the response.
#[derive(Debug)]
pub struct QuickReply {
    pub action: String,
    pub label: String,
    pub message_text: String,
    pub block_id: Option<String>,
}

/// Model of a quick reply.
#[verifier::ext_equal]
pub struct QuickReplyV {
    pub action: Seq<char>,
    pub label: Seq<char>,
    pub message_text: Seq<char>,
    pub block_id: Option<Seq<char>>,
}

impl View for QuickReply {
    type V = QuickReplyV;

    open spec fn view(&self) -> QuickReplyV {
        QuickReplyV {
            action: self.action@,
            label: self.label@,
            message_text: self.message_text@,
            block_id: opt_view(self.block_id),
        }
    }
}

/// Encoding of a quick reply: `action`, `label`, `messageText`, then
/// `blockId` when present.
pub open spec fn spec_enc_quick_reply(q: QuickReplyV) -> JsonVal {
    JsonVal::Obj(
        seq![
            ("action"@, JsonVal::Str(q.action)),
            ("label"@, JsonVal::Str(q.label)),
            ("messageText"@, JsonVal::Str(q.message_text)),
        ] + opt_str_entry("blockId"@, q.block_id),
    )
}

/// The keys a quick reply object may hold.
pub open spec fn quick_reply_allowed_keys() -> Seq<Seq<char>> {
    seq!["action"@, "label"@, "messageText"@, "blockId"@]
}

/// Decoding of a quick reply object.
pub open spec fn spec_dec_quick_reply(v: JsonVal) -> Option<QuickReplyV> {
    match v {
        JsonVal::Obj(p) => if !keys_unique(p) || !keys_within(p, quick_reply_allowed_keys()) {
            None
        } else {
            match (req_str_field(p, "action"@), req_str_field(p, "label"@), req_str_field(
                p,
                "messageText"@,
            ), opt_str_field(p, "blockId"@)) {
                (Some(a), Some(l), Some(m), Some(b)) => Some(
                    QuickReplyV { action: a, label: l, message_text: m, block_id: b },
                ),
                _ => None,
            }
        },
        _ => None,
    }
}

impl QuickReply {
    /// A quick reply with its label and utterance; the action is the fixed
    /// `message`.
    pub fn new(label: &str, msg: &str) -> (r: QuickReply)
        ensures
            r@ == (QuickReplyV {
                action: "message"@,
                label: label@,
                message_text: msg@,
                block_id: None,
            }),
    {
        QuickReply {
            action: String::from_str("message"),
            label: String::from_str(label),
            message_text: String::from_str(msg),
            block_id: None,
        }
    }

    /// Sets the block id.
    pub fn set_block_id(self, id: &str) -> (r: QuickReply)
        ensures
            r@ == (QuickReplyV { block_id: Some(id@), ..self@ }),
    {
        QuickReply { block_id: Some(String::from_str(id)), ..self }
    }

    /// Sets the action.
    pub fn set_action(self, action: &str) -> (r: QuickReply)
        ensures
            r@ == (QuickReplyV { action: action@, ..self@ }),
    {
        QuickReply { action: String::from_str(action), ..self }
    }

    /// Encodes this quick reply as its wire object.
    pub fn encode(&self) -> (r: JsonValue)
        ensures
            r@ == spec_enc_quick_reply(self@),
    {
        let mut o: Vec<(String, JsonValue)> = Vec::new();
        obj_push(&mut o, "action", JsonValue::Str(self.action.clone()));
        obj_push(&mut o, "label", JsonValue::Str(self.label.clone()));
        obj_push(&mut o, "messageText", JsonValue::Str(self.message_text.clone()));
        if let Some(b) = &self.block_id {
            obj_push(&mut o, "blockId", JsonValue::Str(b.clone()));
        }
        let r = JsonValue::Obj(o);
        proof {
            assert(r@ matches JsonVal::Obj(p) && p =~= (seq![
                ("action"@, JsonVal::Str(self@.action)),
                ("label"@, JsonVal::Str(self@.label)),
                ("messageText"@, JsonVal::Str(self@.message_text)),
            ] + opt_str_entry("blockId"@, self@.block_id)));
        }
        r
    }

    /// Decodes a quick reply from its wire object.
    pub fn decode(v: &JsonValue) -> (r: Result<QuickReply, DecodeError>)
        ensures
            match r {
                Ok(q) => spec_dec_quick_reply(v@) == Some(q@),
                Err(_) => spec_dec_quick_reply(v@) is None,
            },
    {
        let pairs = match v {
            JsonValue::Obj(pairs) => pairs,
            _ => { return Err(DecodeError::WrongType); },
        };
        let allowed: Vec<&str> = vec!["action", "label", "messageText", "blockId"];
        proof {
            assert(strs_view(allowed@) =~= quick_reply_allowed_keys());
        }
        if !keys_ok(pairs, &allowed) {
            return Err(DecodeError::UnknownField);
        }
        let action = match get_req_str(pairs, "action") {
            Ok(a) => a,
            Err(e) => { return Err(e); },
        };
        let label = match get_req_str(pairs, "label") {
            Ok(l) => l,
            Err(e) => { return Err(e); },
        };
        let message_text = match get_req_str(pairs, "messageText") {
            Ok(m) => m,
            Err(e) => { return Err(e); },
        };
        let block_id = match get_opt_str(pairs, "blockId") {
            Ok(b) => b,
            Err(e) => { return Err(e); },
        };
        Ok(QuickReply { action, label, message_text, block_id })
    }
}

/// The quick reply keys are pairwise distinct.
pub proof fn lemma_quick_reply_keys()
    ensures
        "action"@ != "label"@,
        "action"@ != "messageText"@,
        "action"@ != "blockId"@,
        "label"@ != "messageText"@,
        "label"@ != "blockId"@,
        "messageText"@ != "blockId"@,
{
    reveal_strlit("action");
    reveal_strlit("label");
    reveal_strlit("messageText");
    reveal_strlit("blockId");
    assert("action"@.len() == 6 && "label"@.len() == 5 && "messageText"@.len() == 11
        && "blockId"@.len() == 7);
}

/// Round trip: decoding an encoded quick reply gives it back.
pub proof fn lemma_quick_reply_round_trip(q: QuickReplyV)
    ensures
        spec_dec_quick_reply(spec_enc_quick_reply(q)) == Some(q),
{
    lemma_quick_reply_keys();
    let pa = seq![("action"@, JsonVal::Str(q.action))];
    let pb = seq![("label"@, JsonVal::Str(q.label))];
    let pc = seq![("messageText"@, JsonVal::Str(q.message_text))];
    let pd = opt_str_entry("blockId"@, q.block_id);
    let p0 = seq![
        ("action"@, JsonVal::Str(q.action)),
        ("label"@, JsonVal::Str(q.label)),
        ("messageText"@, JsonVal::Str(q.message_text)),
    ];
    assert(p0 =~= pa + pb + pc);
    let p = pa + pb + pc + pd;
    assert(p0 + pd =~= p);
    lemma_lookup_single("action"@, JsonVal::Str(q.action));
    lemma_lookup_single("label"@, JsonVal::Str(q.label));
    lemma_lookup_single("messageText"@, JsonVal::Str(q.message_text));
    lemma_opt_str_entry("blockId"@, q.block_id);
    lemma_lookup_concat(pa, pb);
    lemma_lookup_concat(pa + pb, pc);
    lemma_lookup_concat(pa + pb + pc, pd);
    lemma_keys_unique_concat(pa, pb);
    lemma_keys_unique_concat(pa + pb, pc);
    lemma_keys_unique_concat(pa + pb + pc, pd);
    let allowed = quick_reply_allowed_keys();
    assert(allowed.contains("action"@) && allowed.contains("label"@) && allowed.contains(
        "messageText"@,
    ) && allowed.contains("blockId"@)) by {
        assert(allowed[0] == "action"@ && allowed[1] == "label"@ && allowed[2] == "messageText"@
            && allowed[3] == "blockId"@);
    }
    assert(keys_within(pa, allowed));
    assert(keys_within(pb, allowed));
    assert(keys_within(pc, allowed));
    assert(keys_within(pd, allowed));
    lemma_keys_within_concat(pa, pb, allowed);
    lemma_keys_within_concat(pa + pb, pc, allowed);
    lemma_keys_within_concat(pa + pb + pc, pd, allowed);
    assert(spec_dec_quick_reply(spec_enc_quick_reply(q)) == Some(q));
}

/// An image with optional link and sizing.
#[derive(Debug)]
pub struct ThumbNail {
    pub image_url: String,
    pub link: Option<Link>,
    pub fixed_ratio: bool,
    pub width: Option<i32>,
    pub height: Option<i32>,
}

/// Model of a thumbnail.
#[verifier::ext_equal]
pub struct ThumbNailV {
    pub image_url: Seq<char>,
    pub link: Option<LinkV>,
    pub fixed_ratio: bool,
    pub width: Option<i32>,
    pub height: Option<i32>,
}

impl View for ThumbNail {
    type V = ThumbNailV;

    open spec fn view(&self) -> ThumbNailV {
        ThumbNailV {
            image_url: self.image_url@,
            link: opt_link_view(self.link),
            fixed_ratio: self.fixed_ratio,
            width: self.width,
            height: self.height,
        }
    }
}

/// Encoding of a thumbnail: `imageUrl`, then each present optional field;
/// the `fixedRatio` flag is emitted only when set.
pub open spec fn spec_enc_thumbnail(t: ThumbNailV) -> JsonVal {
    JsonVal::Obj(
        seq![("imageUrl"@, JsonVal::Str(t.image_url))] + opt_val_entry(
            "link"@,
            enc_opt_link(t.link),
        ) + flag_entry("fixedRatio"@, t.fixed_ratio) + opt_i32_entry("width"@, t.width)
            + opt_i32_entry("height"@, t.height),
    )
}

/// The keys a thumbnail object may hold.
pub open spec fn thumbnail_allowed_keys() -> Seq<Seq<char>> {
    seq!["imageUrl"@, "link"@, "fixedRatio"@, "width"@, "height"@]
}

/// Decoding of a thumbnail object; an absent `fixedRatio` is false.
pub open spec fn spec_dec_thumbnail(v: JsonVal) -> Option<ThumbNailV> {
    match v {
        JsonVal::Obj(p) => if !keys_unique(p) || !keys_within(p, thumbnail_allowed_keys()) {
            None
        } else {
            match (req_str_field(p, "imageUrl"@), opt_link_field(p, "link"@), opt_bool_field(
                p,
                "fixedRatio"@,
            ), opt_i32_field(p, "width"@), opt_i32_field(p, "height"@)) {
                (Some(iu), Some(l), Some(fr), Some(w), Some(h)) => Some(
                    ThumbNailV {
                        image_url: iu,
                        link: l,
                        fixed_ratio: match fr {
                            Some(b) => b,
                            None => false,
                        },
                        width: w,
                        height: h,
                    },
                ),
                _ => None,
            }
        },
        _ => None,
    }
}

impl ThumbNail {
    /// A thumbnail showing the given image, with no link and no sizing.
    pub fn new(url: &str) -> (r: ThumbNail)
        ensures
            r@ == (ThumbNailV {
                image_url: url@,
                link: None,
                fixed_ratio: false,
                width: None,
                height: None,
            }),
    {
        ThumbNail {
            image_url: String::from_str(url),
            link: None,
            fixed_ratio: false,
            width: None,
            height: None,
        }
    }

    /// Sets the link target.
    pub fn set_link(self, url: &str) -> (r: ThumbNail)
        ensures
            r@ == (ThumbNailV { link: Some((LinkV { web: url@ })), ..self@ }),
    {
        ThumbNail { link: Some(Link { web: String::from_str(url) }), ..self }
    }

    /// Sets the image URL.
    pub fn set_image_url(self, url: &str) -> (r: ThumbNail)
        ensures
            r@ == (ThumbNailV { image_url: url@, ..self@ }),
    {
        ThumbNail { image_url: String::from_str(url), ..self }
    }

    /// Sets the fixed-ratio flag.
    pub fn set_fixed_ratio(self, fixed: bool) -> (r: ThumbNail)
        ensures
            r@ == (ThumbNailV { fixed_ratio: fixed, ..self@ }),
    {
        ThumbNail { fixed_ratio: fixed, ..self }
    }

    /// Sets the width.
    pub fn set_width(self, width: i32) -> (r: ThumbNail)
        ensures
            r@ == (ThumbNailV { width: Some(width), ..self@ }),
    {
        ThumbNail { width: Some(width), ..self }
    }

    /// Sets the height.
    pub fn set_height(self, height: i32) -> (r: ThumbNail)
        ensures
            r@ == (ThumbNailV { height: Some(height), ..self@ }),
    {
        ThumbNail { height: Some(height), ..self }
    }

    /// Encodes this thumbnail as its wire object.
    pub fn encode(&self) -> (r: JsonValue)
        ensures
            r@ == spec_enc_thumbnail(self@),
    {
        let mut o: Vec<(String, JsonValue)> = Vec::new();
        obj_push(&mut o, "imageUrl", JsonValue::Str(self.image_url.clone()));
        if let Some(l) = &self.link {
            obj_push(&mut o, "link", l.encode());
        }
        if self.fixed_ratio {
            obj_push(&mut o, "fixedRatio", JsonValue::Bool(true));
        }
        if let Some(w) = &self.width {
            obj_push(&mut o, "width", JsonValue::Int(*w as i64));
        }
        if let Some(h) = &self.height {
            obj_push(&mut o, "height", JsonValue::Int(*h as i64));
        }
        let r = JsonValue::Obj(o);
        proof {
            assert(r@ matches JsonVal::Obj(p) && p =~= (seq![
                ("imageUrl"@, JsonVal::Str(self@.image_url)),
            ] + opt_val_entry("link"@, enc_opt_link(self@.link)) + flag_entry(
                "fixedRatio"@,
                self@.fixed_ratio,
            ) + opt_i32_entry("width"@, self@.width) + opt_i32_entry("height"@, self@.height)));
        }
        r
    }

    /// Decodes a thumbnail from its wire object.
    pub fn decode(v: &JsonValue) -> (r: Result<ThumbNail, DecodeError>)
        ensures
            match r {
                Ok(t) => spec_dec_thumbnail(v@) == Some(t@),
                Err(_) => spec_dec_thumbnail(v@) is None,
            },
    {
        let pairs = match v {
            JsonValue::Obj(pairs) => pairs,
            _ => { return Err(DecodeError::WrongType); },
        };
        let allowed: Vec<&str> = vec!["imageUrl", "link", "fixedRatio", "width", "height"];
        proof {
            assert(strs_view(allowed@) =~= thumbnail_allowed_keys());
        }
        if !keys_ok(pairs, &allowed) {
            return Err(DecodeError::UnknownField);
        }
        let image_url = match get_req_str(pairs, "imageUrl") {
            Ok(iu) => iu,
            Err(e) => { return Err(e); },
        };
        let link = match get_opt_link(pairs, "link") {
            Ok(l) => l,
            Err(e) => { return Err(e); },
        };
        let fr = match get_opt_bool(pairs, "fixedRatio") {
            Ok(f) => f,
            Err(e) => { return Err(e); },
        };
        let fixed_ratio = match fr {
            Some(b) => b,
            None => false,
        };
        let width = match get_opt_i32(pairs, "width") {
            Ok(w) => w,
            Err(e) => { return Err(e); },
        };
        let height = match get_opt_i32(pairs, "height") {
            Ok(h) => h,
            Err(e) => { return Err(e); },
        };
        Ok(ThumbNail { image_url, link, fixed_ratio, width, height })
    }
}

/// The thumbnail keys are pairwise distinct.
pub proof fn lemma_thumbnail_keys()
    ensures
        "imageUrl"@ != "link"@,
        "imageUrl"@ != "fixedRatio"@,
        "imageUrl"@ != "width"@,
        "imageUrl"@ != "height"@,
        "link"@ != "fixedRatio"@,
        "link"@ != "width"@,
        "link"@ != "height"@,
        "fixedRatio"@ != "width"@,
        "fixedRatio"@ != "height"@,
        "width"@ != "height"@,
{
    reveal_strlit("imageUrl");
    reveal_strlit("link");
    reveal_strlit("fixedRatio");
    reveal_strlit("width");
    reveal_strlit("height");
    assert("imageUrl"@.len() == 8 && "link"@.len() == 4 && "fixedRatio"@.len() == 10
        && "width"@.len() == 5 && "height"@.len() == 6);
}

/// The thumbnail codec keeps a decoded thumbnail equal to the one encoded.
/// A `fixedRatio` of false is omitted on the wire and restored on decode.
pub proof fn lemma_thumbnail_round_trip(t: ThumbNailV)
    ensures
        spec_dec_thumbnail(spec_enc_thumbnail(t)) == Some(t),
{
    lemma_thumbnail_keys();
    if let Some(l) = t.link {
        lemma_link_round_trip(l);
    }
    let pa = seq![("imageUrl"@, JsonVal::Str(t.image_url))];
    let pb = opt_val_entry("link"@, enc_opt_link(t.link));
    let pc = flag_entry("fixedRatio"@, t.fixed_ratio);
    let pd = opt_i32_entry("width"@, t.width);
    let pe = opt_i32_entry("height"@, t.height);
    let p = pa + pb + pc + pd + pe;
    lemma_lookup_single("imageUrl"@, JsonVal::Str(t.image_url));
    lemma_opt_val_entry("link"@, enc_opt_link(t.link));
    lemma_flag_entry("fixedRatio"@, t.fixed_ratio);
    lemma_opt_i32_entry("width"@, t.width);
    lemma_opt_i32_entry("height"@, t.height);
    lemma_lookup_concat(pa, pb);
    lemma_lookup_concat(pa + pb, pc);
    lemma_lookup_concat(pa + pb + pc, pd);
    lemma_lookup_concat(pa + pb + pc + pd, pe);
    lemma_keys_unique_concat(pa, pb);
    lemma_keys_unique_concat(pa + pb, pc);
    lemma_keys_unique_concat(pa + pb + pc, pd);
    lemma_keys_unique_concat(pa + pb + pc + pd, pe);
    let allowed = thumbnail_allowed_keys();
    assert(allowed.contains("imageUrl"@) && allowed.contains("link"@) && allowed.contains(
        "fixedRatio"@,
    ) && allowed.contains("width"@) && allowed.contains("height"@)) by {
        assert(allowed[0] == "imageUrl"@ && allowed[1] == "link"@ && allowed[2] == "fixedRatio"@
            && allowed[3] == "width"@ && allowed[4] == "height"@);
    }
    assert(keys_within(pa, allowed));
    assert(keys_within(pb, allowed));
    assert(keys_within(pc, allowed));
    assert(keys_within(pd, allowed));
    assert(keys_within(pe, allowed));
    lemma_keys_within_concat(pa, pb, allowed);
    lemma_keys_within_concat(pa + pb, pc, allowed);
    lemma_keys_within_concat(pa + pb + pc, pd, allowed);
    lemma_keys_within_concat(pa + pb + pc + pd, pe, allowed);
    assert(spec_dec_thumbnail(spec_enc_thumbnail(t)) == Some(t));
}

/// Models of a sequence of list item values.
pub open spec fn list_items_view(s: Seq<ListItem>) -> Seq<ListItemV> {
    Seq::new(s.len(), |i: int| s[i]@)
}

/// Encoded forms of a sequence of list items, in order.
pub open spec fn spec_enc_list_items(s: Seq<ListItemV>) -> Seq<JsonVal> {
    Seq::new(s.len(), |i: int| spec_enc_list_item(s[i]))
}

/// Decoding of a sequence of list items; any failing element fails the whole.
pub open spec fn spec_dec_list_items(s: Seq<JsonVal>) -> Option<Seq<ListItemV>>
    decreases s,
{
    if s.len() == 0 {
        Some(Seq::empty())
    } else {
        match (spec_dec_list_items(s.drop_last()), spec_dec_list_item(s.last())) {
            (Some(rest), Some(x)) => Some(rest.push(x)),
            _ => None,
        }
    }
}

proof fn lemma_dec_list_items_prefix_none(s: Seq<JsonVal>, i: int)
    requires
        0 <= i <= s.len(),
        spec_dec_list_items(s.take(i)) is None,
    ensures
        spec_dec_list_items(s) is None,
    decreases s.len() - i,
{
    if i == s.len() {
        assert(s.take(i) =~= s);
    } else {
        assert(s.take(i + 1).drop_last() =~= s.take(i));
        lemma_dec_list_items_prefix_none(s, i + 1);
    }
}

/// Encodes each element, keeping order.
pub fn encode_list_items(v: &Vec<ListItem>) -> (r: Vec<JsonValue>)
    ensures
        vals_view(r@) == spec_enc_list_items(list_items_view(v@)),
{
    let mut out: Vec<JsonValue> = Vec::new();
    let n = v.len();
    let mut i: usize = 0;
    while i < n
        invariant
            n == v.len(),
            0 <= i <= n,
            vals_view(out@) == spec_enc_list_items(list_items_view(v@)).take(i as int),
        decreases n - i,
    {
        arr_push(&mut out, v[i].encode());
        proof {
            assert(vals_view(out@) =~= spec_enc_list_items(list_items_view(v@)).take(i as int + 1));
        }
        i = i + 1;
    }
    proof {
        assert(spec_enc_list_items(list_items_view(v@)).take(n as int) =~= spec_enc_list_items(list_items_view(v@)));
    }
    out
}

/// Decodes each element, keeping order; the first failure is reported.
pub fn decode_list_items(v: &Vec<JsonValue>) -> (r: Result<Vec<ListItem>, DecodeError>)
    ensures
        match r {
            Ok(xs) => spec_dec_list_items(vals_view(v@)) == Some(list_items_view(xs@)),
            Err(_) => spec_dec_list_items(vals_view(v@)) is None,
        },
{
    let mut out: Vec<ListItem> = Vec::new();
    let n = v.len();
    let mut i: usize = 0;
    while i < n
        invariant
            n == v.len(),
            0 <= i <= n,
            out.len() == i,
            spec_dec_list_items(vals_view(v@).take(i as int)) == Some(list_items_view(out@)),
        decreases n - i,
    {
        proof {
            lemma_vals_view_len(v@);
            lemma_vals_view_index(v@, i as int);
            assert(vals_view(v@).take(i as int + 1).drop_last() =~= vals_view(v@).take(i as int));
            assert(vals_view(v@).take(i as int + 1).last() == v@[i as int]@);
        }
        match ListItem::decode(&v[i]) {
            Ok(x) => {
                let ghost prev = list_items_view(out@);
                out.push(x);
                proof {
                    assert(list_items_view(out@) =~= prev.push(x@));
                }
            },
            Err(e) => {
                proof {
                    assert(spec_dec_list_items(vals_view(v@).take(i as int + 1)) is None);
                    lemma_dec_list_items_prefix_none(vals_view(v@), i as int + 1);
                }
                return Err(e);
            },
        }
        i = i + 1;
    }
    proof {
        lemma_vals_view_len(v@);
        assert(vals_view(v@).take(n as int) =~= vals_view(v@));
    }
    Ok(out)
}

/// Round trip for a whole sequence of list items.
pub proof fn lemma_list_items_round_trip(s: Seq<ListItemV>)
    ensures
        spec_dec_list_items(spec_enc_list_items(s)) == Some(s),
    decreases s,
{
    if s.len() == 0 {
        assert(spec_enc_list_items(s) =~= Seq::<JsonVal>::empty());
    } else {
        assert(spec_enc_list_items(s).drop_last() =~= spec_enc_list_items(s.drop_last()));
        assert(spec_enc_list_items(s).last() == spec_enc_list_item(s.last()));
        lemma_list_items_round_trip(s.drop_last());
        lemma_list_item_round_trip(s.last());
        assert(s.drop_last().push(s.last()) =~= s);
        assert(spec_dec_list_items(spec_enc_list_items(s)) == Some(s));
    }
}

/// Models of a sequence of quick reply values.
pub open spec fn quick_replies_view(s: Seq<QuickReply>) -> Seq<QuickReplyV> {
    Seq::new(s.len(), |i: int| s[i]@)
}

/// Encoded forms of a sequence of quick replys, in order.
pub open spec fn spec_enc_quick_replies(s: Seq<QuickReplyV>) -> Seq<JsonVal> {
    Seq::new(s.len(), |i: int| spec_enc_quick_reply(s[i]))
}

/// Decoding of a sequence of quick replys; any failing element fails the whole.
pub open spec fn spec_dec_quick_replies(s: Seq<JsonVal>) -> Option<Seq<QuickReplyV>>
    decreases s,
{
    if s.len() == 0 {
        Some(Seq::empty())
    } else {
        match (spec_dec_quick_replies(s.drop_last()), spec_dec_quick_reply(s.last())) {
            (Some(rest), Some(x)) => Some(rest.push(x)),
            _ => None,
        }
    }
}

proof fn lemma_dec_quick_replies_prefix_none(s: Seq<JsonVal>, i: int)
    requires
        0 <= i <= s.len(),
        spec_dec_quick_replies(s.take(i)) is None,
    ensures
        spec_dec_quick_replies(s) is None,
    decreases s.len() - i,
{
    if i == s.len() {
        assert(s.take(i) =~= s);
    } else {
        assert(s.take(i + 1).drop_last() =~= s.take(i));
        lemma_dec_quick_replies_prefix_none(s, i + 1);
    }
}

/// Encodes each element, keeping order.
pub fn encode_quick_replies(v: &Vec<QuickReply>) -> (r: Vec<JsonValue>)
    ensures
        vals_view(r@) == spec_enc_quick_replies(quick_replies_view(v@)),
{
    let mut out: Vec<JsonValue> = Vec::new();
    let n = v.len();
    let mut i: usize = 0;
    while i < n
        invariant
            n == v.len(),
            0 <= i <= n,
            vals_view(out@) == spec_enc_quick_replies(quick_replies_view(v@)).take(i as int),
        decreases n - i,
    {
        arr_push(&mut out, v[i].encode());
        proof {
            assert(vals_view(out@) =~= spec_enc_quick_replies(quick_replies_view(v@)).take(i as int + 1));
        }
        i = i + 1;
    }
    proof {
        assert(spec_enc_quick_replies(quick_replies_view(v@)).take(n as int) =~= spec_enc_quick_replies(quick_replies_view(v@)));
    }
    out
}

/// Decodes each element, keeping order; the first failure is reported.
pub fn decode_quick_replies(v: &Vec<JsonValue>) -> (r: Result<Vec<QuickReply>, DecodeError>)
    ensures
        match r {
            Ok(xs) => spec_dec_quick_replies(vals_view(v@)) == Some(quick_replies_view(xs@)),
            Err(_) => spec_dec_quick_replies(vals_view(v@)) is None,
        },
{
    let mut out: Vec<QuickReply> = Vec::new();
    let n = v.len();
    let mut i: usize = 0;
    while i < n
        invariant
            n == v.len(),
            0 <= i <= n,
            out.len() == i,
            spec_dec_quick_replies(vals_view(v@).take(i as int)) == Some(quick_replies_view(out@)),
        decreases n - i,
    {
        proof {
            lemma_vals_view_len(v@);
            lemma_vals_view_index(v@, i as int);
            assert(vals_view(v@).take(i as int + 1).drop_last() =~= vals_view(v@).take(i as int));
            assert(vals_view(v@).take(i as int + 1).last() == v@[i as int]@);
        }
        match QuickReply::decode(&v[i]) {
            Ok(x) => {
                let ghost prev = quick_replies_view(out@);
                out.push(x);
                proof {
                    assert(quick_replies_view(out@) =~= prev.push(x@));
                }
            },
            Err(e) => {
                proof {
                    assert(spec_dec_quick_replies(vals_view(v@).take(i as int + 1)) is None);
                    lemma_dec_quick_replies_prefix_none(vals_view(v@), i as int + 1);
                }
                return Err(e);
            },
        }
        i = i + 1;
    }
    proof {
        lemma_vals_view_len(v@);
        assert(vals_view(v@).take(n as int) =~= vals_view(v@));
    }
    Ok(out)
}

/// Round trip for a whole sequence of quick replys.
pub proof fn lemma_quick_replies_round_trip(s: Seq<QuickReplyV>)
    ensures
        spec_dec_quick_replies(spec_enc_quick_replies(s)) == Some(s),
    decreases s,
{
    if s.len() == 0 {
        assert(spec_enc_quick_replies(s) =~= Seq::<JsonVal>::empty());
    } else {
        assert(spec_enc_quick_replies(s).drop_last() =~= spec_enc_quick_replies(s.drop_last()));
        assert(spec_enc_quick_replies(s).last() == spec_enc_quick_reply(s.last()));
        lemma_quick_replies_round_trip(s.drop_last());
        lemma_quick_reply_round_trip(s.last());
        assert(s.drop_last().push(s.last()) =~= s);
        assert(spec_dec_quick_replies(spec_enc_quick_replies(s)) == Some(s));
    }
}

/// Models of a sequence of thumbnail values.
pub open spec fn thumbnails_view(s: Seq<ThumbNail>) -> Seq<ThumbNailV> {
    Seq::new(s.len(), |i: int| s[i]@)
}

/// Encoded forms of a sequence of thumbnails, in order.
pub open spec fn spec_enc_thumbnails(s: Seq<ThumbNailV>) -> Seq<JsonVal> {
    Seq::new(s.len(), |i: int| spec_enc_thumbnail(s[i]))
}

/// Decoding of a sequence of thumbnails; any failing element fails the whole.
pub open spec fn spec_dec_thumbnails(s: Seq<JsonVal>) -> Option<Seq<ThumbNailV>>
    decreases s,
{
    if s.len() == 0 {
        Some(Seq::empty())
    } else {
        match (spec_dec_thumbnails(s.drop_last()), spec_dec_thumbnail(s.last())) {
            (Some(rest), Some(x)) => Some(rest.push(x)),
            _ => None,
        }
    }
}

proof fn lemma_dec_thumbnails_prefix_none(s: Seq<JsonVal>, i: int)
    requires
        0 <= i <= s.len(),
        spec_dec_thumbnails(s.take(i)) is None,
    ensures
        spec_dec_thumbnails(s) is None,
    decreases s.len() - i,
{
    if i == s.len() {
        assert(s.take(i) =~= s);
    } else {
        assert(s.take(i + 1).drop_last() =~= s.take(i));
        lemma_dec_thumbnails_prefix_none(s, i + 1);
    }
}

/// Encodes each element, keeping order.
pub fn encode_thumbnails(v: &Vec<ThumbNail>) -> (r: Vec<JsonValue>)
    ensures
        vals_view(r@) == spec_enc_thumbnails(thumbnails_view(v@)),
{
    let mut out: Vec<JsonValue> = Vec::new();
    let n = v.len();
    let mut i: usize = 0;
    while i < n
        invariant
            n == v.len(),
            0 <= i <= n,
            vals_view(out@) == spec_enc_thumbnails(thumbnails_view(v@)).take(i as int),
        decreases n - i,
    {
        arr_push(&mut out, v[i].encode());
        proof {
            assert(vals_view(out@) =~= spec_enc_thumbnails(thumbnails_view(v@)).take(i as int + 1));
        }
        i = i + 1;
    }
    proof {
        assert(spec_enc_thumbnails(thumbnails_view(v@)).take(n as int) =~= spec_enc_thumbnails(thumbnails_view(v@)));
    }
    out
}

/// Decodes each element, keeping order; the first failure is reported.
pub fn decode_thumbnails(v: &Vec<JsonValue>) -> (r: Result<Vec<ThumbNail>, DecodeError>)
    ensures
        match r {
            Ok(xs) => spec_dec_thumbnails(vals_view(v@)) == Some(thumbnails_view(xs@)),
            Err(_) => spec_dec_thumbnails(vals_view(v@)) is None,
        },
{
    let mut out: Vec<ThumbNail> = Vec::new();
    let n = v.len();
    let mut i: usize = 0;
    while i < n
        invariant
            n == v.len(),
            0 <= i <= n,
            out.len() == i,
            spec_dec_thumbnails(vals_view(v@).take(i as int)) == Some(thumbnails_view(out@)),
        decreases n - i,
    {
        proof {
            lemma_vals_view_len(v@);
            lemma_vals_view_index(v@, i as int);
            assert(vals_view(v@).take(i as int + 1).drop_last() =~= vals_view(v@).take(i as int));
            assert(vals_view(v@).take(i as int + 1).last() == v@[i as int]@);
        }
        match ThumbNail::decode(&v[i]) {
            Ok(x) => {
                let ghost prev = thumbnails_view(out@);
                out.push(x);
                proof {
                    assert(thumbnails_view(out@) =~= prev.push(x@));
                }
            },
            Err(e) => {
                proof {
                    assert(spec_dec_thumbnails(vals_view(v@).take(i as int + 1)) is None);
                    lemma_dec_thumbnails_prefix_none(vals_view(v@), i as int + 1);
                }
                return Err(e);
            },
        }
        i = i + 1;
    }
    proof {
        lemma_vals_view_len(v@);
        assert(vals_view(v@).take(n as int) =~= vals_view(v@));
    }
    Ok(out)
}

/// Round trip for a whole sequence of thumbnails.
pub proof fn lemma_thumbnails_round_trip(s: Seq<ThumbNailV>)
    ensures
        spec_dec_thumbnails(spec_enc_thumbnails(s)) == Some(s),
    decreases s,
{
    if s.len() == 0 {
        assert(spec_enc_thumbnails(s) =~= Seq::<JsonVal>::empty());
    } else {
        assert(spec_enc_thumbnails(s).drop_last() =~= spec_enc_thumbnails(s.drop_last()));
        assert(spec_enc_thumbnails(s).last() == spec_enc_thumbnail(s.last()));
        lemma_thumbnails_round_trip(s.drop_last());
        lemma_thumbnail_round_trip(s.last());
        assert(s.drop_last().push(s.last()) =~= s);
        assert(spec_dec_thumbnails(spec_enc_thumbnails(s)) == Some(s));
    }
}

/// The content of a simple text output.
#[derive(Debug)]
pub struct SimpleTextContent {
    pub text: String,
}

/// Model of a simple text content.
#[verifier::ext_equal]
pub struct SimpleTextContentV {
    pub text: Seq<char>,
}

impl View for SimpleTextContent {
    type V = SimpleTextContentV;

    open spec fn view(&self) -> SimpleTextContentV {
        SimpleTextContentV { text: self.text@ }
    }
}

/// Encoding of a simple text content.
pub open spec fn spec_enc_simple_text(c: SimpleTextContentV) -> JsonVal {
    JsonVal::Obj(seq![("text"@, JsonVal::Str(c.text))])
}

/// Decoding of a simple text content object.
pub open spec fn spec_dec_simple_text(v: JsonVal) -> Option<SimpleTextContentV> {
    match v {
        JsonVal::Obj(p) => if !keys_unique(p) || !keys_within(p, seq!["text"@]) {
            None
        } else {
            match req_str_field(p, "text"@) {
                Some(t) => Some(SimpleTextContentV { text: t }),
                None => None,
            }
        },
        _ => None,
    }
}

impl SimpleTextContent {
    /// Encodes this content as its wire object.
    pub fn encode(&self) -> (r: JsonValue)
        ensures
            r@ == spec_enc_simple_text(self@),
    {
        let mut o: Vec<(String, JsonValue)> = Vec::new();
        obj_push(&mut o, "text", JsonValue::Str(self.text.clone()));
        let r = JsonValue::Obj(o);
        proof {
            assert(r@ matches JsonVal::Obj(p) && p =~= seq![("text"@, JsonVal::Str(self@.text))]);
        }
        r
    }

    /// Decodes a simple text content from its wire object.
    pub fn decode(v: &JsonValue) -> (r: Result<SimpleTextContent, DecodeError>)
        ensures
            match r {
                Ok(c) => spec_dec_simple_text(v@) == Some(c@),
                Err(_) => spec_dec_simple_text(v@) is None,
            },
    {
        let pairs = match v {
            JsonValue::Obj(pairs) => pairs,
            _ => { return Err(DecodeError::WrongType); },
        };
        let allowed: Vec<&str> = vec!["text"];
        proof {
            assert(strs_view(allowed@) =~= seq!["text"@]);
        }
        if !keys_ok(pairs, &allowed) {
            return Err(DecodeError::UnknownField);
        }
        let text = match get_req_str(pairs, "text") {
            Ok(t) => t,
            Err(e) => { return Err(e); },
        };
        Ok(SimpleTextContent { text })
    }
}

/// Round trip: decoding an encoded simple text gives it back.
pub proof fn lemma_simple_text_round_trip(c: SimpleTextContentV)
    ensures
        spec_dec_simple_text(spec_enc_simple_text(c)) == Some(c),
{
    let p = seq![("text"@, JsonVal::Str(c.text))];
    lemma_lookup_single("text"@, JsonVal::Str(c.text));
    assert(keys_unique(p));
    assert(seq!["text"@].contains("text"@)) by {
        assert(seq!["text"@][0] == "text"@);
    }
    assert(keys_within(p, seq!["text"@]));
}

/// A plain text output.
#[derive(Debug)]
pub struct SimpleText {
    pub simple_text: SimpleTextContent,
}

impl View for SimpleText {
    type V = SimpleTextContentV;

    open spec fn view(&self) -> SimpleTextContentV {
        self.simple_text@
    }
}

impl SimpleText {
    /// A text output with the given text.
    pub fn new(text: &str) -> (r: SimpleText)
        ensures
            r@ == (SimpleTextContentV { text: text@ }),
    {
        SimpleText { simple_text: SimpleTextContent { text: String::from_str(text) } }
    }

    /// Replaces the text.
    pub fn set_text(self, text: &str) -> (r: SimpleText)
        ensures
            r@ == (SimpleTextContentV { text: text@ }),
    {
        SimpleText { simple_text: SimpleTextContent { text: String::from_str(text) } }
    }

    /// Wraps this text as an output.
    pub fn build(self) -> (r: Types)
        ensures
            r@ == TypesV::SimpleTxt(self@),
    {
        Types::SimpleTxt(self)
    }

    /// The text itself, for rendering outside the wire format.
    pub fn html(&self) -> (r: String)
        ensures
            r@ == self@.text,
    {
        self.simple_text.text.clone()
    }
}

/// The content of a simple image output.
#[derive(Debug)]
pub struct SimpleImageContent {
    pub image_url: String,
    pub alt_text: String,
}

/// Model of a simple image content.
#[verifier::ext_equal]
pub struct SimpleImageContentV {
    pub image_url: Seq<char>,
    pub alt_text: Seq<char>,
}

impl View for SimpleImageContent {
    type V = SimpleImageContentV;

    open spec fn view(&self) -> SimpleImageContentV {
        SimpleImageContentV { image_url: self.image_url@, alt_text: self.alt_text@ }
    }
}

/// Encoding of a simple image content.
pub open spec fn spec_enc_simple_image(c: SimpleImageContentV) -> JsonVal {
    JsonVal::Obj(
        seq![("imageUrl"@, JsonVal::Str(c.image_url)), ("altText"@, JsonVal::Str(c.alt_text))],
    )
}

/// The keys a simple image object may hold.
pub open spec fn simple_image_allowed_keys() -> Seq<Seq<char>> {
    seq!["imageUrl"@, "altText"@]
}

/// Decoding of a simple image content object.
pub open spec fn spec_dec_simple_image(v: JsonVal) -> Option<SimpleImageContentV> {
    match v {
        JsonVal::Obj(p) => if !keys_unique(p) || !keys_within(p, simple_image_allowed_keys()) {
            None
        } else {
            match (req_str_field(p, "imageUrl"@), req_str_field(p, "altText"@)) {
                (Some(iu), Some(at)) => Some(SimpleImageContentV { image_url: iu, alt_text: at }),
                _ => None,
            }
        },
        _ => None,
    }
}

impl SimpleImageContent {
    /// Encodes this content as its wire object.
    pub fn encode(&self) -> (r: JsonValue)
        ensures
            r@ == spec_enc_simple_image(self@),
    {
        let mut o: Vec<(String, JsonValue)> = Vec::new();
        obj_push(&mut o, "imageUrl", JsonValue::Str(self.image_url.clone()));
        obj_push(&mut o, "altText", JsonValue::Str(self.alt_text.clone()));
        let r = JsonValue::Obj(o);
        proof {
            assert(r@ matches JsonVal::Obj(p) && p =~= seq![
                ("imageUrl"@, JsonVal::Str(self@.image_url)),
                ("altText"@, JsonVal::Str(self@.alt_text)),
            ]);
        }
        r
    }

    /// Decodes a simple image content from its wire object.
    pub fn decode(v: &JsonValue) -> (r: Result<SimpleImageContent, DecodeError>)
        ensures
            match r {
                Ok(c) => spec_dec_simple_image(v@) == Some(c@),
                Err(_) => spec_dec_simple_image(v@) is None,
            },
    {
        let pairs = match v {
            JsonValue::Obj(pairs) => pairs,
            _ => { return Err(DecodeError::WrongType); },
        };
        let allowed: Vec<&str> = vec!["imageUrl", "altText"];
        proof {
            assert(strs_view(allowed@) =~= simple_image_allowed_keys());
        }
        if !keys_ok(pairs, &allowed) {
            return Err(DecodeError::UnknownField);
        }
        let image_url = match get_req_str(pairs, "imageUrl") {
            Ok(iu) => iu,
            Err(e) => { return Err(e); },
        };
        let alt_text = match get_req_str(pairs, "altText") {
            Ok(at) => at,
            Err(e) => { return Err(e); },
        };
        Ok(SimpleImageContent { image_url, alt_text })
    }
}

/// Round trip: decoding an encoded simple image gives it back.
pub proof fn lemma_simple_image_round_trip(c: SimpleImageContentV)
    ensures
        spec_dec_simple_image(spec_enc_simple_image(c)) == Some(c),
{
    reveal_strlit("imageUrl");
    reveal_strlit("altText");
    assert("imageUrl"@.len() == 8 && "altText"@.len() == 7);
    let pa = seq![("imageUrl"@, JsonVal::Str(c.image_url))];
    let pb = seq![("altText"@, JsonVal::Str(c.alt_text))];
    let p = pa + pb;
    assert(p =~= seq![
        ("imageUrl"@, JsonVal::Str(c.image_url)),
        ("altText"@, JsonVal::Str(c.alt_text)),
    ]);
    lemma_lookup_single("imageUrl"@, JsonVal::Str(c.image_url));
    lemma_lookup_single("altText"@, JsonVal::Str(c.alt_text));
    lemma_lookup_concat(pa, pb);
    lemma_keys_unique_concat(pa, pb);
    let allowed = simple_image_allowed_keys();
    assert(allowed.contains("imageUrl"@) && allowed.contains("altText"@)) by {
        assert(allowed[0] == "imageUrl"@ && allowed[1] == "altText"@);
    }
    assert(keys_within(pa, allowed));
    assert(keys_within(pb, allowed));
    lemma_keys_within_concat(pa, pb, allowed);
    assert(spec_dec_simple_image(spec_enc_simple_image(c)) == Some(c));
}

/// A plain image output.
#[derive(Debug)]
pub struct SimpleImage {
    pub simple_image: SimpleImageContent,
}

impl View for SimpleImage {
    type V = SimpleImageContentV;

    open spec fn view(&self) -> SimpleImageContentV {
        self.simple_image@
    }
}

impl SimpleImage {
    /// An image output with its URL and alternative text.
    pub fn new(url: &str, text: &str) -> (r: SimpleImage)
        ensures
            r@ == (SimpleImageContentV { image_url: url@, alt_text: text@ }),
    {
        SimpleImage {
            simple_image: SimpleImageContent {
                image_url: String::from_str(url),
                alt_text: String::from_str(text),
            },
        }
    }

    /// Replaces the image URL.
    pub fn set_image(self, link: &str) -> (r: SimpleImage)
        ensures
            r@ == (SimpleImageContentV { image_url: link@, ..self@ }),
    {
        SimpleImage {
            simple_image: SimpleImageContent {
                image_url: String::from_str(link),
                ..self.simple_image
            },
        }
    }

    /// Replaces the alternative text.
    pub fn set_text(self, text: &str) -> (r: SimpleImage)
        ensures
            r@ == (SimpleImageContentV { alt_text: text@, ..self@ }),
    {
        SimpleImage {
            simple_image: SimpleImageContent {
                alt_text: String::from_str(text),
                ..self.simple_image
            },
        }
    }

    /// Wraps this image as an output.
    pub fn build(self) -> (r: Types)
        ensures
            r@ == TypesV::SimpleImg(self@),
    {
        Types::SimpleImg(self)
    }

    /// The image URL, for rendering outside the wire format.
    pub fn html(&self) -> (r: String)
        ensures
            r@ == self@.image_url,
    {
        self.simple_image.image_url.clone()
    }
}

/// A required nested title field.
pub open spec fn req_title_field(p: Seq<(Seq<char>, JsonVal)>, key: Seq<char>) -> Option<TitleV> {
    match obj_lookup(p, key) {
        Some(v) => spec_dec_title(v),
        None => None,
    }
}

fn get_req_title(pairs: &Vec<(String, JsonValue)>, key: &str) -> (r: Result<Title, DecodeError>)
    ensures
        match r {
            Ok(t) => req_title_field(pairs_view(pairs@), key@) == Some(t@),
            Err(_) => req_title_field(pairs_view(pairs@), key@) is None,
        },
{
    match obj_get(pairs, key) {
        Some(v) => Title::decode(v),
        None => Err(DecodeError::MissingField),
    }
}

/// A required array of list items.
pub open spec fn list_items_req_field(p: Seq<(Seq<char>, JsonVal)>, key: Seq<char>) -> Option<
    Seq<ListItemV>,
> {
    match obj_lookup(p, key) {
        Some(JsonVal::Arr(a)) => spec_dec_list_items(a),
        _ => None,
    }
}

fn get_list_items_req(pairs: &Vec<(String, JsonValue)>, key: &str) -> (r: Result<
    Vec<ListItem>,
    DecodeError,
>)
    ensures
        match r {
            Ok(xs) => list_items_req_field(pairs_view(pairs@), key@) == Some(list_items_view(xs@)),
            Err(_) => list_items_req_field(pairs_view(pairs@), key@) is None,
        },
{
    match obj_get(pairs, key) {
        Some(v) => match v {
            JsonValue::Arr(a) => decode_list_items(a),
            _ => Err(DecodeError::WrongType),
        },
        None => Err(DecodeError::MissingField),
    }
}

/// The content of a list card: buttons, a header title, and item rows.
#[derive(Debug)]
pub struct ListCardContent {
    pub buttons: Vec<crate::buttons::Button>,
    pub header: Title,
    pub items: Vec<ListItem>,
}

/// Model of a list card's content.
#[verifier::ext_equal]
pub struct ListCardContentV {
    pub buttons: Seq<crate::buttons::ButtonV>,
    pub header: TitleV,
    pub items: Seq<ListItemV>,
}

impl View for ListCardContent {
    type V = ListCardContentV;

    open spec fn view(&self) -> ListCardContentV {
        ListCardContentV {
            buttons: crate::buttons::buttons_view(self.buttons@),
            header: self.header@,
            items: list_items_view(self.items@),
        }
    }
}

impl ListCardContentV {
    /// Every button is well-formed.
    pub open spec fn wf(self) -> bool {
        forall|i: int| 0 <= i < self.buttons.len() ==> (#[trigger] self.buttons[i]).wf()
    }
}

/// Encoding of a list card's content. The `items` array is always emitted;
/// `buttons` only when non-empty.
pub open spec fn spec_enc_list_card(c: ListCardContentV) -> JsonVal {
    JsonVal::Obj(
        crate::json::nonempty_arr_entry("buttons"@, crate::buttons::spec_enc_buttons(c.buttons))
            + seq![("header"@, spec_enc_title(c.header))] + seq![
            ("items"@, JsonVal::Arr(spec_enc_list_items(c.items))),
        ],
    )
}

/// The keys a list card object may hold.
pub open spec fn list_card_allowed_keys() -> Seq<Seq<char>> {
    seq!["buttons"@, "header"@, "items"@]
}

/// Decoding of a list card object.
pub open spec fn spec_dec_list_card(v: JsonVal) -> Option<ListCardContentV> {
    match v {
        JsonVal::Obj(p) => if !keys_unique(p) || !keys_within(p, list_card_allowed_keys()) {
            None
        } else {
            match (crate::cards::buttons_arr_field(p, "buttons"@), req_title_field(p, "header"@),
            list_items_req_field(p, "items"@)) {
                (Some(bs), Some(h), Some(its)) => Some(
                    ListCardContentV { buttons: bs, header: h, items: its },
                ),
                _ => None,
            }
        },
        _ => None,
    }
}

impl ListCardContent {
    /// Encodes this content as its wire object.
    pub fn encode(&self) -> (r: JsonValue)
        ensures
            r@ == spec_enc_list_card(self@),
    {
        let mut o: Vec<(String, JsonValue)> = Vec::new();
        if self.buttons.len() > 0 {
            obj_push(&mut o, "buttons", JsonValue::Arr(crate::buttons::encode_buttons(&self.buttons)));
        }
        obj_push(&mut o, "header", self.header.encode());
        obj_push(&mut o, "items", JsonValue::Arr(encode_list_items(&self.items)));
        let r = JsonValue::Obj(o);
        proof {
            assert(r@ matches JsonVal::Obj(p) && p =~= (crate::json::nonempty_arr_entry(
                "buttons"@,
                crate::buttons::spec_enc_buttons(self@.buttons),
            ) + seq![("header"@, spec_enc_title(self@.header))] + seq![
                ("items"@, JsonVal::Arr(spec_enc_list_items(self@.items))),
            ]));
        }
        r
    }

    /// Decodes a list card's content from its wire object.
    pub fn decode(v: &JsonValue) -> (r: Result<ListCardContent, DecodeError>)
        ensures
            match r {
                Ok(c) => spec_dec_list_card(v@) == Some(c@),
                Err(_) => spec_dec_list_card(v@) is None,
            },
    {
        let pairs = match v {
            JsonValue::Obj(pairs) => pairs,
            _ => { return Err(DecodeError::WrongType); },
        };
        let allowed: Vec<&str> = vec!["buttons", "header", "items"];
        proof {
            assert(strs_view(allowed@) =~= list_card_allowed_keys());
        }
        if !keys_ok(pairs, &allowed) {
            return Err(DecodeError::UnknownField);
        }
        let buttons = match crate::cards::get_buttons_arr(pairs, "buttons") {
            Ok(bs) => bs,
            Err(e) => { return Err(e); },
        };
        let header = match get_req_title(pairs, "header") {
            Ok(h) => h,
            Err(e) => { return Err(e); },
        };
        let items = match get_list_items_req(pairs, "items") {
            Ok(its) => its,
            Err(e) => { return Err(e); },
        };
        Ok(ListCardContent { buttons, header, items })
    }
}

/// The list card keys are pairwise distinct.
pub proof fn lemma_list_card_keys()
    ensures
        "buttons"@ != "header"@,
        "buttons"@ != "items"@,
        "header"@ != "items"@,
{
    reveal_strlit("buttons");
    reveal_strlit("header");
    reveal_strlit("items");
    assert("buttons"@.len() == 7 && "header"@.len() == 6 && "items"@.len() == 5);
}

/// Round trip: decoding an encoded list card gives it back, for every
/// well-formed content.
pub proof fn lemma_list_card_round_trip(c: ListCardContentV)
    requires
        c.wf(),
    ensures
        spec_dec_list_card(spec_enc_list_card(c)) == Some(c),
{
    lemma_list_card_keys();
    crate::buttons::lemma_buttons_round_trip(c.buttons);
    lemma_title_round_trip(c.header);
    lemma_list_items_round_trip(c.items);
    let pa = crate::json::nonempty_arr_entry("buttons"@, crate::buttons::spec_enc_buttons(c.buttons));
    let pb = seq![("header"@, spec_enc_title(c.header))];
    let pc = seq![("items"@, JsonVal::Arr(spec_enc_list_items(c.items)))];
    let p = pa + pb + pc;
    crate::json::lemma_nonempty_arr_entry("buttons"@, crate::buttons::spec_enc_buttons(c.buttons));
    lemma_lookup_single("header"@, spec_enc_title(c.header));
    lemma_lookup_single("items"@, JsonVal::Arr(spec_enc_list_items(c.items)));
    lemma_lookup_concat(pa, pb);
    lemma_lookup_concat(pa + pb, pc);
    lemma_keys_unique_concat(pa, pb);
    lemma_keys_unique_concat(pa + pb, pc);
    let allowed = list_card_allowed_keys();
    assert(allowed.contains("buttons"@) && allowed.contains("header"@) && allowed.contains(
        "items"@,
    )) by {
        assert(allowed[0] == "buttons"@ && allowed[1] == "header"@ && allowed[2] == "items"@);
    }
    assert(keys_within(pa, allowed));
    assert(keys_within(pb, allowed));
    assert(keys_within(pc, allowed));
    lemma_keys_within_concat(pa, pb, allowed);
    lemma_keys_within_concat(pa + pb, pc, allowed);
    assert(crate::buttons::spec_enc_buttons(c.buttons).len() == c.buttons.len());
    assert(spec_dec_list_card(spec_enc_list_card(c)) == Some(c));
}

/// Builder for a list card output.
#[derive(Debug)]
pub struct ListCard {
    pub list_card: ListCardContent,
}

impl View for ListCard {
    type V = ListCardContentV;

    open spec fn view(&self) -> ListCardContentV {
        self.list_card@
    }
}

impl ListCard {
    /// A list card with the given header title, no buttons and no items.
    pub fn new(header: &str) -> (r: ListCard)
        ensures
            r@ == (ListCardContentV {
                buttons: Seq::<crate::buttons::ButtonV>::empty(),
                header: (TitleV { title: header@ }),
                items: Seq::<ListItemV>::empty(),
            }),
    {
        let r = ListCard {
            list_card: ListCardContent {
                buttons: Vec::new(),
                header: Title { title: String::from_str(header) },
                items: Vec::new(),
            },
        };
        proof {
            assert(crate::buttons::buttons_view(Seq::<crate::buttons::Button>::empty())
                =~= Seq::<crate::buttons::ButtonV>::empty());
            assert(list_items_view(Seq::<ListItem>::empty()) =~= Seq::<ListItemV>::empty());
        }
        r
    }

    /// Appends a button.
    pub fn add_button(&mut self, button: crate::buttons::Button)
        ensures
            final(self)@ == (ListCardContentV {
                buttons: old(self)@.buttons.push(button@),
                ..old(self)@
            }),
    {
        let ghost prev = self.list_card.buttons@;
        let ghost b = button;
        self.list_card.buttons.push(button);
        proof {
            assert(crate::buttons::buttons_view(prev.push(b)) =~= crate::buttons::buttons_view(
                prev,
            ).push(b@));
        }
    }

    /// Wraps this list card as an output.
    pub fn build(self) -> (r: Types)
        ensures
            r@ == TypesV::List(self@),
    {
        Types::List(self)
    }

    /// Appends an item row.
    pub fn add_item(&mut self, item: ListItem)
        ensures
            final(self)@ == (ListCardContentV {
                items: old(self)@.items.push(item@),
                ..old(self)@
            }),
    {
        let ghost prev = self.list_card.items@;
        let ghost it = item;
        self.list_card.items.push(item);
        proof {
            assert(list_items_view(prev.push(it)) =~= list_items_view(prev).push(it@));
        }
    }
}

/// The header shown above a carousel.
#[derive(Debug)]
pub struct CarouselHeader {
    pub title: String,
    pub description: String,
    pub thumbnail: ThumbNail,
}

/// Model of a carousel header.
#[verifier::ext_equal]
pub struct CarouselHeaderV {
    pub title: Seq<char>,
    pub description: Seq<char>,
    pub thumbnail: ThumbNailV,
}

impl View for CarouselHeader {
    type V = CarouselHeaderV;

    open spec fn view(&self) -> CarouselHeaderV {
        CarouselHeaderV {
            title: self.title@,
            description: self.description@,
            thumbnail: self.thumbnail@,
        }
    }
}

/// Encoding of a carousel header.
pub open spec fn spec_enc_carousel_header(h: CarouselHeaderV) -> JsonVal {
    JsonVal::Obj(
        seq![
            ("title"@, JsonVal::Str(h.title)),
            ("description"@, JsonVal::Str(h.description)),
            ("thumbnail"@, spec_enc_thumbnail(h.thumbnail)),
        ],
    )
}

/// The keys a carousel header object may hold.
pub open spec fn carousel_header_allowed_keys() -> Seq<Seq<char>> {
    seq!["title"@, "description"@, "thumbnail"@]
}

/// Decoding of a carousel header object.
pub open spec fn spec_dec_carousel_header(v: JsonVal) -> Option<CarouselHeaderV> {
    match v {
        JsonVal::Obj(p) => if !keys_unique(p) || !keys_within(p, carousel_header_allowed_keys()) {
            None
        } else {
            match (req_str_field(p, "title"@), req_str_field(p, "description"@),
            crate::cards::req_thumbnail_field(p, "thumbnail"@)) {
                (Some(t), Some(d), Some(th)) => Some(
                    CarouselHeaderV { title: t, description: d, thumbnail: th },
                ),
                _ => None,
            }
        },
        _ => None,
    }
}

impl CarouselHeader {
    /// An empty carousel header.
    pub fn new() -> (r: CarouselHeader)
        ensures
            r@ == (CarouselHeaderV {
                title: Seq::<char>::empty(),
                description: Seq::<char>::empty(),
                thumbnail: (ThumbNailV {
                    image_url: Seq::<char>::empty(),
                    link: None,
                    fixed_ratio: false,
                    width: None,
                    height: None,
                }),
            }),
    {
        let r = CarouselHeader {
            title: String::new(),
            description: String::new(),
            thumbnail: ThumbNail::new(""),
        };
        proof {
            assert(""@ =~= Seq::<char>::empty()) by {
                reveal_strlit("");
            }
        }
        r
    }

    /// Sets the title.
    pub fn set_title(&mut self, title: &str)
        ensures
            final(self)@ == (CarouselHeaderV { title: title@, ..old(self)@ }),
    {
        self.title = String::from_str(title);
    }

    /// Sets the description.
    pub fn set_desc(&mut self, desc: &str)
        ensures
            final(self)@ == (CarouselHeaderV { description: desc@, ..old(self)@ }),
    {
        self.description = String::from_str(desc);
    }

    /// Encodes this header as its wire object.
    pub fn encode(&self) -> (r: JsonValue)
        ensures
            r@ == spec_enc_carousel_header(self@),
    {
        let mut o: Vec<(String, JsonValue)> = Vec::new();
        obj_push(&mut o, "title", JsonValue::Str(self.title.clone()));
        obj_push(&mut o, "description", JsonValue::Str(self.description.clone()));
        obj_push(&mut o, "thumbnail", self.thumbnail.encode());
        let r = JsonValue::Obj(o);
        proof {
            assert(r@ matches JsonVal::Obj(p) && p =~= seq![
                ("title"@, JsonVal::Str(self@.title)),
                ("description"@, JsonVal::Str(self@.description)),
                ("thumbnail"@, spec_enc_thumbnail(self@.thumbnail)),
            ]);
        }
        r
    }

    /// Decodes a carousel header from its wire object.
    pub fn decode(v: &JsonValue) -> (r: Result<CarouselHeader, DecodeError>)
        ensures
            match r {
                Ok(h) => spec_dec_carousel_header(v@) == Some(h@),
                Err(_) => spec_dec_carousel_header(v@) is None,
            },
    {
        let pairs = match v {
            JsonValue::Obj(pairs) => pairs,
            _ => { return Err(DecodeError::WrongType); },
        };
        let allowed: Vec<&str> = vec!["title", "description", "thumbnail"];
        proof {
            assert(strs_view(allowed@) =~= carousel_header_allowed_keys());
        }
        if !keys_ok(pairs, &allowed) {
            return Err(DecodeError::UnknownField);
        }
        let title = match get_req_str(pairs, "title") {
            Ok(t) => t,
            Err(e) => { return Err(e); },
        };
        let description = match get_req_str(pairs, "description") {
            Ok(d) => d,
            Err(e) => { return Err(e); },
        };
        let thumbnail = match crate::cards::get_req_thumbnail(pairs, "thumbnail") {
            Ok(th) => th,
            Err(e) => { return Err(e); },
        };
        Ok(CarouselHeader { title, description, thumbnail })
    }
}

/// Round trip: decoding an encoded carousel header gives it back.
pub proof fn lemma_carousel_header_round_trip(h: CarouselHeaderV)
    ensures
        spec_dec_carousel_header(spec_enc_carousel_header(h)) == Some(h),
{
    reveal_strlit("title");
    reveal_strlit("description");
    reveal_strlit("thumbnail");
    assert("title"@.len() == 5 && "description"@.len() == 11 && "thumbnail"@.len() == 9);
    lemma_thumbnail_round_trip(h.thumbnail);
    let pa = seq![("title"@, JsonVal::Str(h.title))];
    let pb = seq![("description"@, JsonVal::Str(h.description))];
    let pc = seq![("thumbnail"@, spec_enc_thumbnail(h.thumbnail))];
    let p = pa + pb + pc;
    assert(p =~= seq![
        ("title"@, JsonVal::Str(h.title)),
        ("description"@, JsonVal::Str(h.description)),
        ("thumbnail"@, spec_enc_thumbnail(h.thumbnail)),
    ]);
    lemma_lookup_single("title"@, JsonVal::Str(h.title));
    lemma_lookup_single("description"@, JsonVal::Str(h.description));
    lemma_lookup_single("thumbnail"@, spec_enc_thumbnail(h.thumbnail));
    lemma_lookup_concat(pa, pb);
    lemma_lookup_concat(pa + pb, pc);
    lemma_keys_unique_concat(pa, pb);
    lemma_keys_unique_concat(pa + pb, pc);
    let allowed = carousel_header_allowed_keys();
    assert(allowed.contains("title"@) && allowed.contains("description"@) && allowed.contains(
        "thumbnail"@,
    )) by {
        assert(allowed[0] == "title"@ && allowed[1] == "description"@ && allowed[2]
            == "thumbnail"@);
    }
    assert(keys_within(pa, allowed));
    assert(keys_within(pb, allowed));
    assert(keys_within(pc, allowed));
    lemma_keys_within_concat(pa, pb, allowed);
    lemma_keys_within_concat(pa + pb, pc, allowed);
    assert(spec_dec_carousel_header(spec_enc_carousel_header(h)) == Some(h));
}

/// An optional nested carousel header field.
pub open spec fn opt_carousel_header_field(p: Seq<(Seq<char>, JsonVal)>, key: Seq<char>) -> Option<
    Option<CarouselHeaderV>,
> {
    match obj_lookup(p, key) {
        None => Some(None),
        Some(v) => match spec_dec_carousel_header(v) {
            Some(h) => Some(Some(h)),
            None => None,
        },
    }
}

/// Model of an optional carousel header value.
pub open spec fn opt_carousel_header_view(o: Option<CarouselHeader>) -> Option<CarouselHeaderV> {
    match o {
        Some(h) => Some(h@),
        None => None,
    }
}

/// The encoded form of an optional carousel header.
pub open spec fn enc_opt_carousel_header(o: Option<CarouselHeaderV>) -> Option<JsonVal> {
    match o {
        Some(h) => Some(spec_enc_carousel_header(h)),
        None => None,
    }
}

fn get_opt_carousel_header(pairs: &Vec<(String, JsonValue)>, key: &str) -> (r: Result<
    Option<CarouselHeader>,
    DecodeError,
>)
    ensures
        match r {
            Ok(Some(h)) => opt_carousel_header_field(pairs_view(pairs@), key@) == Some(Some(h@)),
            Ok(None) => opt_carousel_header_field(pairs_view(pairs@), key@) == Some(
                None::<CarouselHeaderV>,
            ),
            Err(_) => opt_carousel_header_field(pairs_view(pairs@), key@) is None,
        },
{
    match obj_get(pairs, key) {
        Some(v) => match CarouselHeader::decode(v) {
            Ok(h) => Ok(Some(h)),
            Err(e) => Err(e),
        },
        None => Ok(None),
    }
}

/// The content of a carousel: the declared card kind, the embedded cards,
/// and an optional header.
#[derive(Debug)]
pub struct CarouselContent {
    pub card_type: String,
    pub items: Vec<crate::cards::Card>,
    pub header: Option<CarouselHeader>,
}

/// Model of a carousel's content.
#[verifier::ext_equal]
pub struct CarouselContentV {
    pub card_type: Seq<char>,
    pub items: Seq<crate::cards::CardV>,
    pub header: Option<CarouselHeaderV>,
}

impl View for CarouselContent {
    type V = CarouselContentV;

    open spec fn view(&self) -> CarouselContentV {
        CarouselContentV {
            card_type: self.card_type@,
            items: crate::cards::cards_view(self.items@),
            header: opt_carousel_header_view(self.header),
        }
    }
}

impl CarouselContentV {
    /// Every embedded card is well-formed.
    pub open spec fn wf(self) -> bool {
        forall|i: int| 0 <= i < self.items.len() ==> (#[trigger] self.items[i]).wf()
    }
}

/// Encoding of a carousel's content: `type`, then `items` when non-empty,
/// then the header when present.
pub open spec fn spec_enc_carousel(c: CarouselContentV) -> JsonVal {
    JsonVal::Obj(
        seq![("type"@, JsonVal::Str(c.card_type))] + crate::json::nonempty_arr_entry(
            "items"@,
            crate::cards::spec_enc_cards(c.items),
        ) + crate::json::opt_val_entry("header"@, enc_opt_carousel_header(c.header)),
    )
}

/// The keys a carousel object may hold.
pub open spec fn carousel_allowed_keys() -> Seq<Seq<char>> {
    seq!["type"@, "items"@, "header"@]
}

/// Decoding of a carousel object.
pub open spec fn spec_dec_carousel(v: JsonVal) -> Option<CarouselContentV> {
    match v {
        JsonVal::Obj(p) => if !keys_unique(p) || !keys_within(p, carousel_allowed_keys()) {
            None
        } else {
            match (req_str_field(p, "type"@), crate::cards::cards_arr_field(p, "items"@),
            opt_carousel_header_field(p, "header"@)) {
                (Some(t), Some(cs), Some(h)) => Some(
                    CarouselContentV { card_type: t, items: cs, header: h },
                ),
                _ => None,
            }
        },
        _ => None,
    }
}

impl CarouselContent {
    /// Encodes this content as its wire object.
    pub fn encode(&self) -> (r: JsonValue)
        ensures
            r@ == spec_enc_carousel(self@),
    {
        let mut o: Vec<(String, JsonValue)> = Vec::new();
        obj_push(&mut o, "type", JsonValue::Str(self.card_type.clone()));
        if self.items.len() > 0 {
            obj_push(&mut o, "items", JsonValue::Arr(crate::cards::encode_cards(&self.items)));
        }
        if let Some(h) = &self.header {
            obj_push(&mut o, "header", h.encode());
        }
        let r = JsonValue::Obj(o);
        proof {
            assert(r@ matches JsonVal::Obj(p) && p =~= (seq![
                ("type"@, JsonVal::Str(self@.card_type)),
            ] + crate::json::nonempty_arr_entry(
                "items"@,
                crate::cards::spec_enc_cards(self@.items),
            ) + crate::json::opt_val_entry("header"@, enc_opt_carousel_header(self@.header))));
        }
        r
    }

    /// Decodes a carousel's content from its wire object.
    pub fn decode(v: &JsonValue) -> (r: Result<CarouselContent, DecodeError>)
        ensures
            match r {
                Ok(c) => spec_dec_carousel(v@) == Some(c@),
                Err(_) => spec_dec_carousel(v@) is None,
            },
    {
        let pairs = match v {
            JsonValue::Obj(pairs) => pairs,
            _ => { return Err(DecodeError::WrongType); },
        };
        let allowed: Vec<&str> = vec!["type", "items", "header"];
        proof {
            assert(strs_view(allowed@) =~= carousel_allowed_keys());
        }
        if !keys_ok(pairs, &allowed) {
            return Err(DecodeError::UnknownField);
        }
        let card_type = match get_req_str(pairs, "type") {
            Ok(t) => t,
            Err(e) => { return Err(e); },
        };
        let items = match crate::cards::get_cards_arr(pairs, "items") {
            Ok(cs) => cs,
            Err(e) => { return Err(e); },
        };
        let header = match get_opt_carousel_header(pairs, "header") {
            Ok(h) => h,
            Err(e) => { return Err(e); },
        };
        Ok(CarouselContent { card_type, items, header })
    }
}

/// The carousel keys are pairwise distinct.
pub proof fn lemma_carousel_keys()
    ensures
        "type"@ != "items"@,
        "type"@ != "header"@,
        "items"@ != "header"@,
{
    reveal_strlit("type");
    reveal_strlit("items");
    reveal_strlit("header");
    assert("type"@.len() == 4 && "items"@.len() == 5 && "header"@.len() == 6);
}

/// Round trip: decoding an encoded carousel gives it back, for every
/// carousel of well-formed cards.
pub proof fn lemma_carousel_round_trip(c: CarouselContentV)
    requires
        c.wf(),
    ensures
        spec_dec_carousel(spec_enc_carousel(c)) == Some(c),
{
    lemma_carousel_keys();
    crate::cards::lemma_cards_round_trip(c.items);
    if let Some(h) = c.header {
        lemma_carousel_header_round_trip(h);
    }
    let pa = seq![("type"@, JsonVal::Str(c.card_type))];
    let pb = crate::json::nonempty_arr_entry("items"@, crate::cards::spec_enc_cards(c.items));
    let pc = crate::json::opt_val_entry("header"@, enc_opt_carousel_header(c.header));
    let p = pa + pb + pc;
    lemma_lookup_single("type"@, JsonVal::Str(c.card_type));
    crate::json::lemma_nonempty_arr_entry("items"@, crate::cards::spec_enc_cards(c.items));
    crate::json::lemma_opt_val_entry("header"@, enc_opt_carousel_header(c.header));
    lemma_lookup_concat(pa, pb);
    lemma_lookup_concat(pa + pb, pc);
    lemma_keys_unique_concat(pa, pb);
    lemma_keys_unique_concat(pa + pb, pc);
    let allowed = carousel_allowed_keys();
    assert(allowed.contains("type"@) && allowed.contains("items"@) && allowed.contains(
        "header"@,
    )) by {
        assert(allowed[0] == "type"@ && allowed[1] == "items"@ && allowed[2] == "header"@);
    }
    assert(keys_within(pa, allowed));
    assert(keys_within(pb, allowed));
    assert(keys_within(pc, allowed));
    lemma_keys_within_concat(pa, pb, allowed);
    lemma_keys_within_concat(pa + pb, pc, allowed);
    assert(crate::cards::spec_enc_cards(c.items).len() == c.items.len());
    assert(spec_dec_carousel(spec_enc_carousel(c)) == Some(c));
}

/// Builder for a carousel output.
#[derive(Debug)]
pub struct Carousel {
    pub carousel: CarouselContent,
}

impl View for Carousel {
    type V = CarouselContentV;

    open spec fn view(&self) -> CarouselContentV {
        self.carousel@
    }
}

impl Carousel {
    /// An empty carousel of basic cards.
    pub fn new() -> (r: Carousel)
        ensures
            r@ == (CarouselContentV {
                card_type: "basicCard"@,
                items: Seq::<crate::cards::CardV>::empty(),
                header: None,
            }),
    {
        let r = Carousel {
            carousel: CarouselContent {
                card_type: String::from_str("basicCard"),
                items: Vec::new(),
                header: None,
            },
        };
        proof {
            assert(crate::cards::cards_view(Seq::<crate::cards::Card>::empty())
                =~= Seq::<crate::cards::CardV>::empty());
        }
        r
    }

    /// Appends a card.
    pub fn add_card(&mut self, card: crate::cards::Card)
        ensures
            final(self)@ == (CarouselContentV {
                items: old(self)@.items.push(card@),
                ..old(self)@
            }),
    {
        let ghost prev = self.carousel.items@;
        let ghost c = card;
        self.carousel.items.push(card);
        proof {
            assert(crate::cards::cards_view(prev.push(c)) =~= crate::cards::cards_view(prev).push(
                c@,
            ));
        }
    }

    /// Wraps this carousel as an output.
    pub fn build(self) -> (r: Types)
        ensures
            r@ == TypesV::Carousel(self@),
    {
        Types::Carousel(self)
    }

    /// Sets the declared card kind.
    pub fn set_type(self, card_type: &str) -> (r: Carousel)
        ensures
            r@ == (CarouselContentV { card_type: card_type@, ..self@ }),
    {
        Carousel {
            carousel: CarouselContent {
                card_type: String::from_str(card_type),
                ..self.carousel
            },
        }
    }

    /// Sets the header in one step: title, description and thumbnail image.
    pub fn set_header(&mut self, title: &str, desc: &str, thumbnail_url: &str)
        ensures
            final(self)@ == (CarouselContentV {
                header: Some(
                    (CarouselHeaderV {
                        title: title@,
                        description: desc@,
                        thumbnail: (ThumbNailV {
                            image_url: thumbnail_url@,
                            link: None,
                            fixed_ratio: false,
                            width: None,
                            height: None,
                        }),
                    }),
                ),
                ..old(self)@
            }),
    {
        self.carousel.header = Some(
            CarouselHeader {
                title: String::from_str(title),
                description: String::from_str(desc),
                thumbnail: ThumbNail::new(thumbnail_url),
            },
        );
    }

    /// Sets the header's title. The header must have been set already.
    pub fn set_header_title(self, title: &str) -> (r: Carousel)
        requires
            self@.header is Some,
        ensures
            r@ == (CarouselContentV {
                header: Some(
                    (CarouselHeaderV { title: title@, ..self@.header->Some_0 }),
                ),
                ..self@
            }),
    {
        let mut carousel = self.carousel;
        if let Some(h) = &mut carousel.header {
            h.set_title(title);
        }
        Carousel { carousel }
    }

    /// Sets the header's description. The header must have been set already.
    pub fn set_header_desc(self, desc: &str) -> (r: Carousel)
        requires
            self@.header is Some,
        ensures
            r@ == (CarouselContentV {
                header: Some(
                    (CarouselHeaderV { description: desc@, ..self@.header->Some_0 }),
                ),
                ..self@
            }),
    {
        let mut carousel = self.carousel;
        if let Some(h) = &mut carousel.header {
            h.set_desc(desc);
        }
        Carousel { carousel }
    }
}

/// One top-level output: each variant serializes under its own wrapper key.
#[derive(Debug)]
pub enum Types {
    List(ListCard),
    Basic(crate::cards::BasicCard),
    Commerce(crate::cards::CommerceCard),
    Item(crate::cards::ItemCard),
    SimpleTxt(SimpleText),
    SimpleImg(SimpleImage),
    Carousel(Carousel),
}

/// Model of an output.
#[verifier::ext_equal]
pub enum TypesV {
    List(ListCardContentV),
    Basic(crate::cards::BasicCardContentV),
    Commerce(crate::cards::CommerceCardContentV),
    Item(crate::cards::ItemCardContentV),
    SimpleTxt(SimpleTextContentV),
    SimpleImg(SimpleImageContentV),
    Carousel(CarouselContentV),
}

impl View for Types {
    type V = TypesV;

    open spec fn view(&self) -> TypesV {
        match self {
            Types::List(x) => TypesV::List(x@),
            Types::Basic(x) => TypesV::Basic(x@),
            Types::Commerce(x) => TypesV::Commerce(x@),
            Types::Item(x) => TypesV::Item(x@),
            Types::SimpleTxt(x) => TypesV::SimpleTxt(x@),
            Types::SimpleImg(x) => TypesV::SimpleImg(x@),
            Types::Carousel(x) => TypesV::Carousel(x@),
        }
    }
}

impl TypesV {
    /// Every button and card inside the output is well-formed.
    pub open spec fn wf(self) -> bool {
        match self {
            TypesV::List(c) => c.wf(),
            TypesV::Basic(c) => c.wf(),
            TypesV::Commerce(c) => c.wf(),
            TypesV::Item(c) => c.wf(),
            TypesV::SimpleTxt(_) => true,
            TypesV::SimpleImg(_) => true,
            TypesV::Carousel(c) => c.wf(),
        }
    }
}

/// The wrapper key an output serializes under.
pub open spec fn output_key(t: TypesV) -> Seq<char> {
    match t {
        TypesV::List(_) => "listCard"@,
        TypesV::Basic(_) => "basicCard"@,
        TypesV::Commerce(_) => "commerceCard"@,
        TypesV::Item(_) => "itemCard"@,
        TypesV::SimpleTxt(_) => "simpleText"@,
        TypesV::SimpleImg(_) => "simpleImage"@,
        TypesV::Carousel(_) => "carousel"@,
    }
}

/// The encoded payload under an output's wrapper key.
pub open spec fn output_payload(t: TypesV) -> JsonVal {
    match t {
        TypesV::List(c) => spec_enc_list_card(c),
        TypesV::Basic(c) => crate::cards::spec_enc_basic_content(c),
        TypesV::Commerce(c) => crate::cards::spec_enc_commerce_content(c),
        TypesV::Item(c) => crate::cards::spec_enc_item_content(c),
        TypesV::SimpleTxt(c) => spec_enc_simple_text(c),
        TypesV::SimpleImg(c) => spec_enc_simple_image(c),
        TypesV::Carousel(c) => spec_enc_carousel(c),
    }
}

/// Encoding of an output: an object with exactly its wrapper key.
pub open spec fn spec_enc_output(t: TypesV) -> JsonVal {
    JsonVal::Obj(seq![(output_key(t), output_payload(t))])
}

/// Decoding of an output: the object must hold exactly one key, which names
/// the shape; the payload is decoded by that shape's rules.
pub open spec fn spec_dec_output(v: JsonVal) -> Option<TypesV> {
    match v {
        JsonVal::Obj(p) => if p.len() != 1 {
            None
        } else {
            let k = p[0].0;
            let inner = p[0].1;
            if k == "listCard"@ {
                match spec_dec_list_card(inner) {
                    Some(c) => Some(TypesV::List(c)),
                    None => None,
                }
            } else if k == "basicCard"@ {
                match crate::cards::spec_dec_basic_content(inner) {
                    Some(c) => Some(TypesV::Basic(c)),
                    None => None,
                }
            } else if k == "commerceCard"@ {
                match crate::cards::spec_dec_commerce_content(inner) {
                    Some(c) => Some(TypesV::Commerce(c)),
                    None => None,
                }
            } else if k == "itemCard"@ {
                match crate::cards::spec_dec_item_content(inner) {
                    Some(c) => Some(TypesV::Item(c)),
                    None => None,
                }
            } else if k == "simpleText"@ {
                match spec_dec_simple_text(inner) {
                    Some(c) => Some(TypesV::SimpleTxt(c)),
                    None => None,
                }
            } else if k == "simpleImage"@ {
                match spec_dec_simple_image(inner) {
                    Some(c) => Some(TypesV::SimpleImg(c)),
                    None => None,
                }
            } else if k == "carousel"@ {
                match spec_dec_carousel(inner) {
                    Some(c) => Some(TypesV::Carousel(c)),
                    None => None,
                }
            } else {
                None
            }
        },
        _ => None,
    }
}

impl Types {
    /// Encodes this output as its wire object.
    pub fn encode(&self) -> (r: JsonValue)
        ensures
            r@ == spec_enc_output(self@),
    {
        let mut o: Vec<(String, JsonValue)> = Vec::new();
        match self {
            Types::List(x) => obj_push(&mut o, "listCard", x.list_card.encode()),
            Types::Basic(x) => obj_push(&mut o, "basicCard", x.content.encode()),
            Types::Commerce(x) => obj_push(&mut o, "commerceCard", x.content.encode()),
            Types::Item(x) => obj_push(&mut o, "itemCard", x.content.encode()),
            Types::SimpleTxt(x) => obj_push(&mut o, "simpleText", x.simple_text.encode()),
            Types::SimpleImg(x) => obj_push(&mut o, "simpleImage", x.simple_image.encode()),
            Types::Carousel(x) => obj_push(&mut o, "carousel", x.carousel.encode()),
        }
        let r = JsonValue::Obj(o);
        proof {
            assert(r@ matches JsonVal::Obj(p) && p =~= seq![
                (output_key(self@), output_payload(self@)),
            ]);
        }
        r
    }

    /// Decodes an output from its wire object.
    pub fn decode(v: &JsonValue) -> (r: Result<Types, DecodeError>)
        ensures
            match r {
                Ok(t) => spec_dec_output(v@) == Some(t@),
                Err(_) => spec_dec_output(v@) is None,
            },
    {
        let pairs = match v {
            JsonValue::Obj(pairs) => pairs,
            _ => { return Err(DecodeError::WrongType); },
        };
        if pairs.len() != 1 {
            proof {
                lemma_pairs_view_len(pairs@);
            }
            return Err(DecodeError::UnknownShape);
        }
        proof {
            lemma_pairs_view_len(pairs@);
            lemma_pairs_view_index(pairs@, 0);
        }
        let k = &pairs[0].0;
        let inner = &pairs[0].1;
        if str_eq(k, "listCard") {
            match ListCardContent::decode(inner) {
                Ok(c) => Ok(Types::List(ListCard { list_card: c })),
                Err(e) => Err(e),
            }
        } else if str_eq(k, "basicCard") {
            match crate::cards::BasicCardContent::decode(inner) {
                Ok(c) => Ok(Types::Basic(crate::cards::BasicCard { content: c })),
                Err(e) => Err(e),
            }
        } else if str_eq(k, "commerceCard") {
            match crate::cards::CommerceCardContent::decode(inner) {
                Ok(c) => Ok(Types::Commerce(crate::cards::CommerceCard { content: c })),
                Err(e) => Err(e),
            }
        } else if str_eq(k, "itemCard") {
            match crate::cards::ItemCardContent::decode(inner) {
                Ok(c) => Ok(Types::Item(crate::cards::ItemCard { content: c })),
                Err(e) => Err(e),
            }
        } else if str_eq(k, "simpleText") {
            match SimpleTextContent::decode(inner) {
                Ok(c) => Ok(Types::SimpleTxt(SimpleText { simple_text: c })),
                Err(e) => Err(e),
            }
        } else if str_eq(k, "simpleImage") {
            match SimpleImageContent::decode(inner) {
                Ok(c) => Ok(Types::SimpleImg(SimpleImage { simple_image: c })),
                Err(e) => Err(e),
            }
        } else if str_eq(k, "carousel") {
            match CarouselContent::decode(inner) {
                Ok(c) => Ok(Types::Carousel(Carousel { carousel: c })),
                Err(e) => Err(e),
            }
        } else {
            Err(DecodeError::UnknownShape)
        }
    }
}

/// The seven output wrapper keys are pairwise distinct.
pub proof fn lemma_output_keys()
    ensures
        "listCard"@ != "basicCard"@,
        "listCard"@ != "commerceCard"@,
        "listCard"@ != "itemCard"@,
        "listCard"@ != "simpleText"@,
        "listCard"@ != "simpleImage"@,
        "listCard"@ != "carousel"@,
        "basicCard"@ != "commerceCard"@,
        "basicCard"@ != "itemCard"@,
        "basicCard"@ != "simpleText"@,
        "basicCard"@ != "simpleImage"@,
        "basicCard"@ != "carousel"@,
        "commerceCard"@ != "itemCard"@,
        "commerceCard"@ != "simpleText"@,
        "commerceCard"@ != "simpleImage"@,
        "commerceCard"@ != "carousel"@,
        "itemCard"@ != "simpleText"@,
        "itemCard"@ != "simpleImage"@,
        "itemCard"@ != "carousel"@,
        "simpleText"@ != "simpleImage"@,
        "simpleText"@ != "carousel"@,
        "simpleImage"@ != "carousel"@,
{
    reveal_strlit("listCard");
    reveal_strlit("basicCard");
    reveal_strlit("commerceCard");
    reveal_strlit("itemCard");
    reveal_strlit("simpleText");
    reveal_strlit("simpleImage");
    reveal_strlit("carousel");
    assert("listCard"@.len() == 8 && "basicCard"@.len() == 9 && "commerceCard"@.len() == 12
        && "itemCard"@.len() == 8 && "simpleText"@.len() == 10 && "simpleImage"@.len() == 11
        && "carousel"@.len() == 8);
    assert("listCard"@[0] == 'l' && "itemCard"@[0] == 'i' && "carousel"@[0] == 'c');
}

/// Round trip: decoding an encoded output gives it back, for every
/// well-formed output.
pub proof fn lemma_output_round_trip(t: TypesV)
    requires
        t.wf(),
    ensures
        spec_dec_output(spec_enc_output(t)) == Some(t),
{
    lemma_output_keys();
    let p = seq![(output_key(t), output_payload(t))];
    assert(p.len() == 1);
    match t {
        TypesV::List(c) => lemma_list_card_round_trip(c),
        TypesV::Basic(c) => crate::cards::lemma_basic_content_round_trip(c),
        TypesV::Commerce(c) => crate::cards::lemma_commerce_content_round_trip(c),
        TypesV::Item(c) => crate::cards::lemma_item_content_round_trip(c),
        TypesV::SimpleTxt(c) => lemma_simple_text_round_trip(c),
        TypesV::SimpleImg(c) => lemma_simple_image_round_trip(c),
        TypesV::Carousel(c) => lemma_carousel_round_trip(c),
    }
}

/// Models of a sequence of output values.
pub open spec fn outputs_view(s: Seq<Types>) -> Seq<TypesV> {
    Seq::new(s.len(), |i: int| s[i]@)
}

/// Encoded forms of a sequence of outputs, in order.
pub open spec fn spec_enc_outputs(s: Seq<TypesV>) -> Seq<JsonVal> {
    Seq::new(s.len(), |i: int| spec_enc_output(s[i]))
}

/// Decoding of a sequence of outputs; any failing element fails the whole.
pub open spec fn spec_dec_outputs(s: Seq<JsonVal>) -> Option<Seq<TypesV>>
    decreases s,
{
    if s.len() == 0 {
        Some(Seq::empty())
    } else {
        match (spec_dec_outputs(s.drop_last()), spec_dec_output(s.last())) {
            (Some(rest), Some(x)) => Some(rest.push(x)),
            _ => None,
        }
    }
}

proof fn lemma_dec_outputs_prefix_none(s: Seq<JsonVal>, i: int)
    requires
        0 <= i <= s.len(),
        spec_dec_outputs(s.take(i)) is None,
    ensures
        spec_dec_outputs(s) is None,
    decreases s.len() - i,
{
    if i == s.len() {
        assert(s.take(i) =~= s);
    } else {
        assert(s.take(i + 1).drop_last() =~= s.take(i));
        lemma_dec_outputs_prefix_none(s, i + 1);
    }
}

/// Encodes each element, keeping order.
pub fn encode_outputs(v: &Vec<Types>) -> (r: Vec<JsonValue>)
    ensures
        vals_view(r@) == spec_enc_outputs(outputs_view(v@)),
{
    let mut out: Vec<JsonValue> = Vec::new();
    let n = v.len();
    let mut i: usize = 0;
    while i < n
        invariant
            n == v.len(),
            0 <= i <= n,
            vals_view(out@) == spec_enc_outputs(outputs_view(v@)).take(i as int),
        decreases n - i,
    {
        arr_push(&mut out, v[i].encode());
        proof {
            assert(vals_view(out@) =~= spec_enc_outputs(outputs_view(v@)).take(i as int + 1));
        }
        i = i + 1;
    }
    proof {
        assert(spec_enc_outputs(outputs_view(v@)).take(n as int) =~= spec_enc_outputs(outputs_view(v@)));
    }
    out
}

/// Decodes each element, keeping order; the first failure is reported.
pub fn decode_outputs(v: &Vec<JsonValue>) -> (r: Result<Vec<Types>, DecodeError>)
    ensures
        match r {
            Ok(xs) => spec_dec_outputs(vals_view(v@)) == Some(outputs_view(xs@)),
            Err(_) => spec_dec_outputs(vals_view(v@)) is None,
        },
{
    let mut out: Vec<Types> = Vec::new();
    let n = v.len();
    let mut i: usize = 0;
    while i < n
        invariant
            n == v.len(),
            0 <= i <= n,
            out.len() == i,
            spec_dec_outputs(vals_view(v@).take(i as int)) == Some(outputs_view(out@)),
        decreases n - i,
    {
        proof {
            lemma_vals_view_len(v@);
            lemma_vals_view_index(v@, i as int);
            assert(vals_view(v@).take(i as int + 1).drop_last() =~= vals_view(v@).take(i as int));
            assert(vals_view(v@).take(i as int + 1).last() == v@[i as int]@);
        }
        match Types::decode(&v[i]) {
            Ok(x) => {
                let ghost prev = outputs_view(out@);
                out.push(x);
                proof {
                    assert(outputs_view(out@) =~= prev.push(x@));
                }
            },
            Err(e) => {
                proof {
                    assert(spec_dec_outputs(vals_view(v@).take(i as int + 1)) is None);
                    lemma_dec_outputs_prefix_none(vals_view(v@), i as int + 1);
                }
                return Err(e);
            },
        }
        i = i + 1;
    }
    proof {
        lemma_vals_view_len(v@);
        assert(vals_view(v@).take(n as int) =~= vals_view(v@));
    }
    Ok(out)
}

/// Round trip for a whole sequence of outputs.
pub proof fn lemma_outputs_round_trip(s: Seq<TypesV>)
    requires
        forall|i: int| 0 <= i < s.len() ==> (#[trigger] s[i]).wf(),
    ensures
        spec_dec_outputs(spec_enc_outputs(s)) == Some(s),
    decreases s,
{
    if s.len() == 0 {
        assert(spec_enc_outputs(s) =~= Seq::<JsonVal>::empty());
    } else {
        assert(spec_enc_outputs(s).drop_last() =~= spec_enc_outputs(s.drop_last()));
        assert(spec_enc_outputs(s).last() == spec_enc_output(s.last()));
        lemma_outputs_round_trip(s.drop_last());
        lemma_output_round_trip(s.last());
        assert(s.drop_last().push(s.last()) =~= s);
        assert(spec_dec_outputs(spec_enc_outputs(s)) == Some(s));
    }
}

/// A required array of outputs.
pub open spec fn outputs_req_field(p: Seq<(Seq<char>, JsonVal)>, key: Seq<char>) -> Option<
    Seq<TypesV>,
> {
    match obj_lookup(p, key) {
        Some(JsonVal::Arr(a)) => spec_dec_outputs(a),
        _ => None,
    }
}

fn get_outputs_req(pairs: &Vec<(String, JsonValue)>, key: &str) -> (r: Result<
    Vec<Types>,
    DecodeError,
>)
    ensures
        match r {
            Ok(xs) => outputs_req_field(pairs_view(pairs@), key@) == Some(outputs_view(xs@)),
            Err(_) => outputs_req_field(pairs_view(pairs@), key@) is None,
        },
{
    match obj_get(pairs, key) {
        Some(v) => match v {
            JsonValue::Arr(a) => decode_outputs(a),
            _ => Err(DecodeError::WrongType),
        },
        None => Err(DecodeError::MissingField),
    }
}

/// A `quickReplies`-style array field: absent means empty.
pub open spec fn quick_replies_arr_field(p: Seq<(Seq<char>, JsonVal)>, key: Seq<char>) -> Option<
    Seq<QuickReplyV>,
> {
    match obj_lookup(p, key) {
        None => Some(Seq::empty()),
        Some(JsonVal::Arr(a)) => spec_dec_quick_replies(a),
        Some(_) => None,
    }
}

fn get_quick_replies_arr(pairs: &Vec<(String, JsonValue)>, key: &str) -> (r: Result<
    Vec<QuickReply>,
    DecodeError,
>)
    ensures
        match r {
            Ok(qs) => quick_replies_arr_field(pairs_view(pairs@), key@) == Some(
                quick_replies_view(qs@),
            ),
            Err(_) => quick_replies_arr_field(pairs_view(pairs@), key@) is None,
        },
{
    match obj_get(pairs, key) {
        Some(v) => match v {
            JsonValue::Arr(a) => decode_quick_replies(a),
            _ => Err(DecodeError::WrongType),
        },
        None => {
            let out: Vec<QuickReply> = Vec::new();
            proof {
                assert(quick_replies_view(out@) =~= Seq::<QuickReplyV>::empty());
            }
            Ok(out)
        },
    }
}

/// The ordered outputs and quick replies of a response.
#[derive(Debug)]
pub struct Outputs {
    pub outputs: Vec<Types>,
    pub quick_replies: Vec<QuickReply>,
}

/// Model of the outputs block.
#[verifier::ext_equal]
pub struct OutputsV {
    pub outputs: Seq<TypesV>,
    pub quick_replies: Seq<QuickReplyV>,
}

impl View for Outputs {
    type V = OutputsV;

    open spec fn view(&self) -> OutputsV {
        OutputsV {
            outputs: outputs_view(self.outputs@),
            quick_replies: quick_replies_view(self.quick_replies@),
        }
    }
}

impl OutputsV {
    /// Every output is well-formed.
    pub open spec fn wf(self) -> bool {
        forall|i: int| 0 <= i < self.outputs.len() ==> (#[trigger] self.outputs[i]).wf()
    }
}

/// Encoding of the outputs block: `outputs` always, `quickReplies` only
/// when at least one quick reply was added.
pub open spec fn spec_enc_outputs_obj(o: OutputsV) -> JsonVal {
    JsonVal::Obj(
        seq![("outputs"@, JsonVal::Arr(spec_enc_outputs(o.outputs)))]
            + crate::json::nonempty_arr_entry(
            "quickReplies"@,
            spec_enc_quick_replies(o.quick_replies),
        ),
    )
}

/// The keys the outputs block may hold.
pub open spec fn outputs_allowed_keys() -> Seq<Seq<char>> {
    seq!["outputs"@, "quickReplies"@]
}

/// Decoding of the outputs block.
pub open spec fn spec_dec_outputs_obj(v: JsonVal) -> Option<OutputsV> {
    match v {
        JsonVal::Obj(p) => if !keys_unique(p) || !keys_within(p, outputs_allowed_keys()) {
            None
        } else {
            match (outputs_req_field(p, "outputs"@), quick_replies_arr_field(p, "quickReplies"@)) {
                (Some(os), Some(qs)) => Some(OutputsV { outputs: os, quick_replies: qs }),
                _ => None,
            }
        },
        _ => None,
    }
}

impl Outputs {
    /// An empty outputs block.
    fn new() -> (r: Outputs)
        ensures
            r@ == (OutputsV {
                outputs: Seq::<TypesV>::empty(),
                quick_replies: Seq::<QuickReplyV>::empty(),
            }),
    {
        let r = Outputs { outputs: Vec::new(), quick_replies: Vec::new() };
        proof {
            assert(outputs_view(Seq::<Types>::empty()) =~= Seq::<TypesV>::empty());
            assert(quick_replies_view(Seq::<QuickReply>::empty()) =~= Seq::<QuickReplyV>::empty());
        }
        r
    }

    /// Encodes this block as its wire object.
    pub fn encode(&self) -> (r: JsonValue)
        ensures
            r@ == spec_enc_outputs_obj(self@),
    {
        let mut o: Vec<(String, JsonValue)> = Vec::new();
        obj_push(&mut o, "outputs", JsonValue::Arr(encode_outputs(&self.outputs)));
        if self.quick_replies.len() > 0 {
            obj_push(&mut o, "quickReplies", JsonValue::Arr(encode_quick_replies(&self.quick_replies)));
        }
        let r = JsonValue::Obj(o);
        proof {
            assert(r@ matches JsonVal::Obj(p) && p =~= (seq![
                ("outputs"@, JsonVal::Arr(spec_enc_outputs(self@.outputs))),
            ] + crate::json::nonempty_arr_entry(
                "quickReplies"@,
                spec_enc_quick_replies(self@.quick_replies),
            )));
        }
        r
    }

    /// Decodes an outputs block from its wire object.
    pub fn decode(v: &JsonValue) -> (r: Result<Outputs, DecodeError>)
        ensures
            match r {
                Ok(o) => spec_dec_outputs_obj(v@) == Some(o@),
                Err(_) => spec_dec_outputs_obj(v@) is None,
            },
    {
        let pairs = match v {
            JsonValue::Obj(pairs) => pairs,
            _ => { return Err(DecodeError::WrongType); },
        };
        let allowed: Vec<&str> = vec!["outputs", "quickReplies"];
        proof {
            assert(strs_view(allowed@) =~= outputs_allowed_keys());
        }
        if !keys_ok(pairs, &allowed) {
            return Err(DecodeError::UnknownField);
        }
        let outputs = match get_outputs_req(pairs, "outputs") {
            Ok(os) => os,
            Err(e) => { return Err(e); },
        };
        let quick_replies = match get_quick_replies_arr(pairs, "quickReplies") {
            Ok(qs) => qs,
            Err(e) => { return Err(e); },
        };
        Ok(Outputs { outputs, quick_replies })
    }
}

/// The outputs block keys are distinct.
pub proof fn lemma_outputs_obj_keys()
    ensures
        "outputs"@ != "quickReplies"@,
{
    reveal_strlit("outputs");
    reveal_strlit("quickReplies");
    assert("outputs"@.len() == 7 && "quickReplies"@.len() == 12);
}

/// Round trip: decoding an encoded outputs block gives it back, for every
/// block of well-formed outputs.
pub proof fn lemma_outputs_obj_round_trip(o: OutputsV)
    requires
        o.wf(),
    ensures
        spec_dec_outputs_obj(spec_enc_outputs_obj(o)) == Some(o),
{
    lemma_outputs_obj_keys();
    lemma_outputs_round_trip(o.outputs);
    lemma_quick_replies_round_trip(o.quick_replies);
    let pa = seq![("outputs"@, JsonVal::Arr(spec_enc_outputs(o.outputs)))];
    let pb = crate::json::nonempty_arr_entry(
        "quickReplies"@,
        spec_enc_quick_replies(o.quick_replies),
    );
    let p = pa + pb;
    lemma_lookup_single("outputs"@, JsonVal::Arr(spec_enc_outputs(o.outputs)));
    crate::json::lemma_nonempty_arr_entry(
        "quickReplies"@,
        spec_enc_quick_replies(o.quick_replies),
    );
    lemma_lookup_concat(pa, pb);
    lemma_keys_unique_concat(pa, pb);
    let allowed = outputs_allowed_keys();
    assert(allowed.contains("outputs"@) && allowed.contains("quickReplies"@)) by {
        assert(allowed[0] == "outputs"@ && allowed[1] == "quickReplies"@);
    }
    assert(keys_within(pa, allowed));
    assert(keys_within(pb, allowed));
    lemma_keys_within_concat(pa, pb, allowed);
    assert(spec_enc_quick_replies(o.quick_replies).len() == o.quick_replies.len());
    assert(spec_dec_outputs_obj(spec_enc_outputs_obj(o)) == Some(o));
}

/// The root of a response: the outputs block and the fixed version string.
#[derive(Debug)]
pub struct Template {
    pub template: Outputs,
    pub version: String,
}

/// Model of a template.
#[verifier::ext_equal]
pub struct TemplateV {
    pub template: OutputsV,
    pub version: Seq<char>,
}

impl View for Template {
    type V = TemplateV;

    open spec fn view(&self) -> TemplateV {
        TemplateV { template: self.template@, version: self.version@ }
    }
}

impl TemplateV {
    /// Every output is well-formed.
    pub open spec fn wf(self) -> bool {
        self.template.wf()
    }
}

/// A required nested outputs block.
pub open spec fn req_outputs_obj_field(p: Seq<(Seq<char>, JsonVal)>, key: Seq<char>) -> Option<
    OutputsV,
> {
    match obj_lookup(p, key) {
        Some(v) => spec_dec_outputs_obj(v),
        None => None,
    }
}

fn get_req_outputs_obj(pairs: &Vec<(String, JsonValue)>, key: &str) -> (r: Result<
    Outputs,
    DecodeError,
>)
    ensures
        match r {
            Ok(o) => req_outputs_obj_field(pairs_view(pairs@), key@) == Some(o@),
            Err(_) => req_outputs_obj_field(pairs_view(pairs@), key@) is None,
        },
{
    match obj_get(pairs, key) {
        Some(v) => Outputs::decode(v),
        None => Err(DecodeError::MissingField),
    }
}

/// Encoding of a template: the envelope `{"template": ..., "version": ...}`.
pub open spec fn spec_enc_template(t: TemplateV) -> JsonVal {
    JsonVal::Obj(
        seq![
            ("template"@, spec_enc_outputs_obj(t.template)),
            ("version"@, JsonVal::Str(t.version)),
        ],
    )
}

/// The keys a template envelope may hold.
pub open spec fn template_allowed_keys() -> Seq<Seq<char>> {
    seq!["template"@, "version"@]
}

/// Decoding of a template envelope.
pub open spec fn spec_dec_template(v: JsonVal) -> Option<TemplateV> {
    match v {
        JsonVal::Obj(p) => if !keys_unique(p) || !keys_within(p, template_allowed_keys()) {
            None
        } else {
            match (req_outputs_obj_field(p, "template"@), req_str_field(p, "version"@)) {
                (Some(o), Some(ver)) => Some(TemplateV { template: o, version: ver }),
                _ => None,
            }
        },
        _ => None,
    }
}

impl Template {
    /// An empty response: no outputs, no quick replies, version `2.0`.
    pub fn new() -> (r: Template)
        ensures
            r@ == (TemplateV {
                template: (OutputsV {
                    outputs: Seq::<TypesV>::empty(),
                    quick_replies: Seq::<QuickReplyV>::empty(),
                }),
                version: "2.0"@,
            }),
    {
        Template { template: Outputs::new(), version: String::from_str("2.0") }
    }

    /// Appends an output; serialization keeps the append order.
    pub fn add_output(&mut self, output: Types)
        ensures
            final(self)@ == (TemplateV {
                template: (OutputsV {
                    outputs: old(self)@.template.outputs.push(output@),
                    ..old(self)@.template
                }),
                ..old(self)@
            }),
    {
        let ghost prev = self.template.outputs@;
        let ghost og = output;
        self.template.outputs.push(output);
        proof {
            assert(outputs_view(prev.push(og)) =~= outputs_view(prev).push(og@));
        }
    }

    /// Appends a quick reply; serialization keeps the append order.
    pub fn add_qr(&mut self, qr: QuickReply)
        ensures
            final(self)@ == (TemplateV {
                template: (OutputsV {
                    quick_replies: old(self)@.template.quick_replies.push(qr@),
                    ..old(self)@.template
                }),
                ..old(self)@
            }),
    {
        let ghost prev = self.template.quick_replies@;
        let ghost qg = qr;
        self.template.quick_replies.push(qr);
        proof {
            assert(quick_replies_view(prev.push(qg)) =~= quick_replies_view(prev).push(qg@));
        }
    }

    /// Encodes this template as its wire object.
    pub fn encode(&self) -> (r: JsonValue)
        ensures
            r@ == spec_enc_template(self@),
    {
        let mut o: Vec<(String, JsonValue)> = Vec::new();
        obj_push(&mut o, "template", self.template.encode());
        obj_push(&mut o, "version", JsonValue::Str(self.version.clone()));
        let r = JsonValue::Obj(o);
        proof {
            assert(r@ matches JsonVal::Obj(p) && p =~= seq![
                ("template"@, spec_enc_outputs_obj(self@.template)),
                ("version"@, JsonVal::Str(self@.version)),
            ]);
        }
        r
    }

    /// Decodes a template from its wire object.
    pub fn decode(v: &JsonValue) -> (r: Result<Template, DecodeError>)
        ensures
            match r {
                Ok(t) => spec_dec_template(v@) == Some(t@),
                Err(_) => spec_dec_template(v@) is None,
            },
    {
        let pairs = match v {
            JsonValue::Obj(pairs) => pairs,
            _ => { return Err(DecodeError::WrongType); },
        };
        let allowed: Vec<&str> = vec!["template", "version"];
        proof {
            assert(strs_view(allowed@) =~= template_allowed_keys());
        }
        if !keys_ok(pairs, &allowed) {
            return Err(DecodeError::UnknownField);
        }
        let template = match get_req_outputs_obj(pairs, "template") {
            Ok(o) => o,
            Err(e) => { return Err(e); },
        };
        let version = match get_req_str(pairs, "version") {
            Ok(ver) => ver,
            Err(e) => { return Err(e); },
        };
        Ok(Template { template, version })
    }
}

/// The template envelope keys are distinct.
pub proof fn lemma_template_keys()
    ensures
        "template"@ != "version"@,
{
    reveal_strlit("template");
    reveal_strlit("version");
    assert("template"@.len() == 8 && "version"@.len() == 7);
}

/// Round trip: decoding an encoded template gives it back, for every
/// template of well-formed outputs.
pub proof fn lemma_template_round_trip(t: TemplateV)
    requires
        t.wf(),
    ensures
        spec_dec_template(spec_enc_template(t)) == Some(t),
{
    lemma_template_keys();
    lemma_outputs_obj_round_trip(t.template);
    let pa = seq![("template"@, spec_enc_outputs_obj(t.template))];
    let pb = seq![("version"@, JsonVal::Str(t.version))];
    let p = pa + pb;
    assert(p =~= seq![
        ("template"@, spec_enc_outputs_obj(t.template)),
        ("version"@, JsonVal::Str(t.version)),
    ]);
    lemma_lookup_single("template"@, spec_enc_outputs_obj(t.template));
    lemma_lookup_single("version"@, JsonVal::Str(t.version));
    lemma_lookup_concat(pa, pb);
    lemma_keys_unique_concat(pa, pb);
    let allowed = template_allowed_keys();
    assert(allowed.contains("template"@) && allowed.contains("version"@)) by {
        assert(allowed[0] == "template"@ && allowed[1] == "version"@);
    }
    assert(keys_within(pa, allowed));
    assert(keys_within(pb, allowed));
    lemma_keys_within_concat(pa, pb, allowed);
    assert(spec_dec_template(spec_enc_template(t)) == Some(t));
}

/// What decoding a template from text yields: the text must parse as JSON
/// and the tree must decode as a template envelope.
pub open spec fn spec_template_from_text(t: Seq<char>) -> Option<TemplateV> {
    match crate::parse::spec_parse(t) {
        Some(v) => spec_dec_template(v),
        None => None,
    }
}

impl Template {
    /// The compact wire text of this response.
    pub fn to_string(&self) -> (r: String)
        ensures
            r@ == crate::text::text_of(spec_enc_template(self@)),
    {
        let v = self.encode();
        crate::text::value_to_string(&v)
    }

    /// The wire tree of this response.
    pub fn build(&self) -> (r: JsonValue)
        ensures
            r@ == spec_enc_template(self@),
    {
        self.encode()
    }

    /// Decodes a response from its compact wire text.
    pub fn from_str(s: &str) -> (r: Result<Template, DecodeError>)
        ensures
            match r {
                Ok(t) => spec_template_from_text(s@) == Some(t@),
                Err(_) => spec_template_from_text(s@) is None,
            },
    {
        match crate::parse::parse_json(s) {
            Ok(v) => Template::decode(&v),
            Err(e) => Err(e),
        }
    }
}

/// A template with no quick replies omits the `quickReplies` key entirely:
/// its outputs block holds exactly the one key `outputs`.
pub proof fn lemma_no_quick_replies_omits_key(t: TemplateV)
    requires
        t.template.quick_replies.len() == 0,
    ensures
        spec_enc_outputs_obj(t.template) matches JsonVal::Obj(p) && p.len() == 1 && p[0].0
            == "outputs"@,
{
    assert(spec_enc_quick_replies(t.template.quick_replies).len() == 0);
    let pa = seq![("outputs"@, JsonVal::Arr(spec_enc_outputs(t.template.outputs)))];
    let pb = crate::json::nonempty_arr_entry(
        "quickReplies"@,
        spec_enc_quick_replies(t.template.quick_replies),
    );
    assert(pb =~= Seq::<(Seq<char>, JsonVal)>::empty());
    assert(pa + pb =~= pa);
}

/// An envelope holding any key besides `template` and `version` is refused
/// on decode.
pub proof fn lemma_unknown_field_fails(p: Seq<(Seq<char>, JsonVal)>, i: int)
    requires
        0 <= i < p.len(),
        p[i].0 != "template"@,
        p[i].0 != "version"@,
    ensures
        spec_dec_template(JsonVal::Obj(p)) is None,
{
    let allowed = template_allowed_keys();
    assert(!allowed.contains(p[i].0)) by {
        assert(forall|j: int| 0 <= j < allowed.len() ==> allowed[j] != p[i].0) by {
            assert(allowed[0] == "template"@ && allowed[1] == "version"@);
        }
    }
    assert(!keys_within(p, allowed));
}

/// An envelope missing either required field is refused on decode.
pub proof fn lemma_missing_field_fails(p: Seq<(Seq<char>, JsonVal)>)
    ensures
        obj_lookup(p, "template"@) is None ==> spec_dec_template(JsonVal::Obj(p)) is None,
        obj_lookup(p, "version"@) is None ==> spec_dec_template(JsonVal::Obj(p)) is None,
{
}

/// Serialization keeps the append order verbatim: in the encoded outputs
/// block, the elements of the `outputs` array are the encodings of the
/// outputs in order, and, when any quick reply was added, the elements of
/// the `quickReplies` array are the encodings of the quick replies in
/// order.
pub proof fn lemma_order_preserved(t: TemplateV)
    ensures
        obj_lookup(spec_enc_outputs_obj(t.template)->Obj_0, "outputs"@) matches Some(
            JsonVal::Arr(a),
        ) && a.len() == t.template.outputs.len() && (forall|i: int|
            0 <= i < t.template.outputs.len() ==> a[i] == spec_enc_output(
                #[trigger] t.template.outputs[i],
            )),
        t.template.quick_replies.len() > 0 ==> (obj_lookup(
            spec_enc_outputs_obj(t.template)->Obj_0,
            "quickReplies"@,
        ) matches Some(JsonVal::Arr(q)) && q.len() == t.template.quick_replies.len() && (forall|
            i: int,
        |
            0 <= i < t.template.quick_replies.len() ==> q[i] == spec_enc_quick_reply(
                #[trigger] t.template.quick_replies[i],
            ))),
{
    lemma_outputs_obj_keys();
    let pa = seq![("outputs"@, JsonVal::Arr(spec_enc_outputs(t.template.outputs)))];
    let pb = crate::json::nonempty_arr_entry(
        "quickReplies"@,
        spec_enc_quick_replies(t.template.quick_replies),
    );
    lemma_lookup_single("outputs"@, JsonVal::Arr(spec_enc_outputs(t.template.outputs)));
    crate::json::lemma_nonempty_arr_entry(
        "quickReplies"@,
        spec_enc_quick_replies(t.template.quick_replies),
    );
    lemma_lookup_concat(pa, pb);
    assert(obj_lookup(pa + pb, "outputs"@) == Some(
        JsonVal::Arr(spec_enc_outputs(t.template.outputs)),
    ));
    assert(spec_enc_quick_replies(t.template.quick_replies).len()
        == t.template.quick_replies.len());
    if t.template.quick_replies.len() > 0 {
        assert(obj_lookup(pa + pb, "quickReplies"@) == Some(
            JsonVal::Arr(spec_enc_quick_replies(t.template.quick_replies)),
        ));
    }
}

/// An encoded link holds no `null`.
pub proof fn lemma_enc_link_no_null(l: LinkV)
    ensures
        !crate::json::has_null(spec_enc_link(l)),
{
    crate::json::lemma_has_null_pairs_single("web"@, JsonVal::Str(l.web));
}

/// An encoded title holds no `null`.
pub proof fn lemma_enc_title_no_null(t: TitleV)
    ensures
        !crate::json::has_null(spec_enc_title(t)),
{
    crate::json::lemma_has_null_pairs_single("title"@, JsonVal::Str(t.title));
}

/// An encoded list item holds no `null`.
pub proof fn lemma_enc_list_item_no_null(it: ListItemV)
    ensures
        !crate::json::has_null(spec_enc_list_item(it)),
{
    if let Some(l) = it.link {
        lemma_enc_link_no_null(l);
    }
    let pa = seq![("title"@, JsonVal::Str(it.title))];
    let pb = opt_str_entry("description"@, it.description);
    let pc = opt_str_entry("imageUrl"@, it.image_url);
    let pd = crate::json::opt_val_entry("link"@, enc_opt_link(it.link));
    crate::json::lemma_has_null_pairs_single("title"@, JsonVal::Str(it.title));
    crate::json::lemma_opt_str_entry_no_null("description"@, it.description);
    crate::json::lemma_opt_str_entry_no_null("imageUrl"@, it.image_url);
    crate::json::lemma_opt_val_entry_null("link"@, enc_opt_link(it.link));
    crate::json::lemma_has_null_pairs_concat(pa, pb);
    crate::json::lemma_has_null_pairs_concat(pa + pb, pc);
    crate::json::lemma_has_null_pairs_concat(pa + pb + pc, pd);
}

/// An encoded list item sequence holds no `null`.
pub proof fn lemma_enc_list_items_no_null(s: Seq<ListItemV>)
    ensures
        !crate::json::has_null_seq(spec_enc_list_items(s)),
{
    crate::json::lemma_has_null_seq_iff(spec_enc_list_items(s));
    assert forall|i: int| 0 <= i < spec_enc_list_items(s).len() implies !crate::json::has_null(
        #[trigger] spec_enc_list_items(s)[i],
    ) by {
        lemma_enc_list_item_no_null(s[i]);
    }
}

/// An encoded quick reply holds no `null`.
pub proof fn lemma_enc_quick_reply_no_null(q: QuickReplyV)
    ensures
        !crate::json::has_null(spec_enc_quick_reply(q)),
{
    let pa = seq![("action"@, JsonVal::Str(q.action))];
    let pb = seq![("label"@, JsonVal::Str(q.label))];
    let pc = seq![("messageText"@, JsonVal::Str(q.message_text))];
    let pd = opt_str_entry("blockId"@, q.block_id);
    let p0 = seq![
        ("action"@, JsonVal::Str(q.action)),
        ("label"@, JsonVal::Str(q.label)),
        ("messageText"@, JsonVal::Str(q.message_text)),
    ];
    assert(p0 =~= pa + pb + pc);
    assert(p0 + pd =~= pa + pb + pc + pd);
    crate::json::lemma_has_null_pairs_single("action"@, JsonVal::Str(q.action));
    crate::json::lemma_has_null_pairs_single("label"@, JsonVal::Str(q.label));
    crate::json::lemma_has_null_pairs_single("messageText"@, JsonVal::Str(q.message_text));
    crate::json::lemma_opt_str_entry_no_null("blockId"@, q.block_id);
    crate::json::lemma_has_null_pairs_concat(pa, pb);
    crate::json::lemma_has_null_pairs_concat(pa + pb, pc);
    crate::json::lemma_has_null_pairs_concat(pa + pb + pc, pd);
}

/// An encoded quick reply sequence holds no `null`.
pub proof fn lemma_enc_quick_replies_no_null(s: Seq<QuickReplyV>)
    ensures
        !crate::json::has_null_seq(spec_enc_quick_replies(s)),
{
    crate::json::lemma_has_null_seq_iff(spec_enc_quick_replies(s));
    assert forall|i: int| 0 <= i < spec_enc_quick_replies(s).len() implies !crate::json::has_null(
        #[trigger] spec_enc_quick_replies(s)[i],
    ) by {
        lemma_enc_quick_reply_no_null(s[i]);
    }
}

/// An encoded thumbnail holds no `null`.
pub proof fn lemma_enc_thumbnail_no_null(t: ThumbNailV)
    ensures
        !crate::json::has_null(spec_enc_thumbnail(t)),
{
    if let Some(l) = t.link {
        lemma_enc_link_no_null(l);
    }
    let pa = seq![("imageUrl"@, JsonVal::Str(t.image_url))];
    let pb = crate::json::opt_val_entry("link"@, enc_opt_link(t.link));
    let pc = crate::json::flag_entry("fixedRatio"@, t.fixed_ratio);
    let pd = crate::json::opt_i32_entry("width"@, t.width);
    let pe = crate::json::opt_i32_entry("height"@, t.height);
    crate::json::lemma_has_null_pairs_single("imageUrl"@, JsonVal::Str(t.image_url));
    crate::json::lemma_opt_val_entry_null("link"@, enc_opt_link(t.link));
    crate::json::lemma_flag_entry_no_null("fixedRatio"@, t.fixed_ratio);
    crate::json::lemma_opt_i32_entry_no_null("width"@, t.width);
    crate::json::lemma_opt_i32_entry_no_null("height"@, t.height);
    crate::json::lemma_has_null_pairs_concat(pa, pb);
    crate::json::lemma_has_null_pairs_concat(pa + pb, pc);
    crate::json::lemma_has_null_pairs_concat(pa + pb + pc, pd);
    crate::json::lemma_has_null_pairs_concat(pa + pb + pc + pd, pe);
}

/// An encoded thumbnail sequence holds no `null`.
pub proof fn lemma_enc_thumbnails_no_null(s: Seq<ThumbNailV>)
    ensures
        !crate::json::has_null_seq(spec_enc_thumbnails(s)),
{
    crate::json::lemma_has_null_seq_iff(spec_enc_thumbnails(s));
    assert forall|i: int| 0 <= i < spec_enc_thumbnails(s).len() implies !crate::json::has_null(
        #[trigger] spec_enc_thumbnails(s)[i],
    ) by {
        lemma_enc_thumbnail_no_null(s[i]);
    }
}

/// A thumbnail's optional fields leave no trace when absent, and the
/// fixed-ratio flag appears exactly when set.
pub proof fn lemma_thumbnail_optional_fields(t: ThumbNailV)
    ensures
        spec_enc_thumbnail(t) matches JsonVal::Obj(p) && (obj_lookup(p, "link"@) is Some
            <==> t.link is Some) && (obj_lookup(p, "fixedRatio"@) is Some <==> t.fixed_ratio) && (
        obj_lookup(p, "width"@) is Some <==> t.width is Some) && (obj_lookup(p, "height"@) is Some
            <==> t.height is Some),
{
    lemma_thumbnail_keys();
    let pa = seq![("imageUrl"@, JsonVal::Str(t.image_url))];
    let pb = crate::json::opt_val_entry("link"@, enc_opt_link(t.link));
    let pc = crate::json::flag_entry("fixedRatio"@, t.fixed_ratio);
    let pd = crate::json::opt_i32_entry("width"@, t.width);
    let pe = crate::json::opt_i32_entry("height"@, t.height);
    lemma_lookup_single("imageUrl"@, JsonVal::Str(t.image_url));
    crate::json::lemma_opt_val_entry("link"@, enc_opt_link(t.link));
    crate::json::lemma_flag_entry("fixedRatio"@, t.fixed_ratio);
    crate::json::lemma_opt_i32_entry("width"@, t.width);
    crate::json::lemma_opt_i32_entry("height"@, t.height);
    lemma_lookup_concat(pa, pb);
    lemma_lookup_concat(pa + pb, pc);
    lemma_lookup_concat(pa + pb + pc, pd);
    lemma_lookup_concat(pa + pb + pc + pd, pe);
}

/// An encoded simple text holds no `null`.
pub proof fn lemma_enc_simple_text_no_null(c: SimpleTextContentV)
    ensures
        !crate::json::has_null(spec_enc_simple_text(c)),
{
    crate::json::lemma_has_null_pairs_single("text"@, JsonVal::Str(c.text));
}

/// An encoded simple image holds no `null`.
pub proof fn lemma_enc_simple_image_no_null(c: SimpleImageContentV)
    ensures
        !crate::json::has_null(spec_enc_simple_image(c)),
{
    let pa = seq![("imageUrl"@, JsonVal::Str(c.image_url))];
    let pb = seq![("altText"@, JsonVal::Str(c.alt_text))];
    assert(seq![("imageUrl"@, JsonVal::Str(c.image_url)), ("altText"@, JsonVal::Str(c.alt_text))]
        =~= pa + pb);
    crate::json::lemma_has_null_pairs_single("imageUrl"@, JsonVal::Str(c.image_url));
    crate::json::lemma_has_null_pairs_single("altText"@, JsonVal::Str(c.alt_text));
    crate::json::lemma_has_null_pairs_concat(pa, pb);
}

/// An encoded list card holds no `null`.
pub proof fn lemma_enc_list_card_no_null(c: ListCardContentV)
    ensures
        !crate::json::has_null(spec_enc_list_card(c)),
{
    crate::buttons::lemma_enc_buttons_no_null(c.buttons);
    lemma_enc_title_no_null(c.header);
    lemma_enc_list_items_no_null(c.items);
    let pa = crate::json::nonempty_arr_entry(
        "buttons"@,
        crate::buttons::spec_enc_buttons(c.buttons),
    );
    let pb = seq![("header"@, spec_enc_title(c.header))];
    let pc = seq![("items"@, JsonVal::Arr(spec_enc_list_items(c.items)))];
    crate::json::lemma_nonempty_arr_entry_null(
        "buttons"@,
        crate::buttons::spec_enc_buttons(c.buttons),
    );
    crate::json::lemma_has_null_pairs_single("header"@, spec_enc_title(c.header));
    crate::json::lemma_has_null_pairs_single(
        "items"@,
        JsonVal::Arr(spec_enc_list_items(c.items)),
    );
    crate::json::lemma_has_null_pairs_concat(pa, pb);
    crate::json::lemma_has_null_pairs_concat(pa + pb, pc);
}

/// An encoded carousel header holds no `null`.
pub proof fn lemma_enc_carousel_header_no_null(h: CarouselHeaderV)
    ensures
        !crate::json::has_null(spec_enc_carousel_header(h)),
{
    lemma_enc_thumbnail_no_null(h.thumbnail);
    let pa = seq![("title"@, JsonVal::Str(h.title))];
    let pb = seq![("description"@, JsonVal::Str(h.description))];
    let pc = seq![("thumbnail"@, spec_enc_thumbnail(h.thumbnail))];
    assert(seq![
        ("title"@, JsonVal::Str(h.title)),
        ("description"@, JsonVal::Str(h.description)),
        ("thumbnail"@, spec_enc_thumbnail(h.thumbnail)),
    ] =~= pa + pb + pc);
    crate::json::lemma_has_null_pairs_single("title"@, JsonVal::Str(h.title));
    crate::json::lemma_has_null_pairs_single("description"@, JsonVal::Str(h.description));
    crate::json::lemma_has_null_pairs_single("thumbnail"@, spec_enc_thumbnail(h.thumbnail));
    crate::json::lemma_has_null_pairs_concat(pa, pb);
    crate::json::lemma_has_null_pairs_concat(pa + pb, pc);
}

/// An encoded carousel holds no `null`.
pub proof fn lemma_enc_carousel_no_null(c: CarouselContentV)
    ensures
        !crate::json::has_null(spec_enc_carousel(c)),
{
    crate::cards::lemma_enc_cards_no_null(c.items);
    if let Some(h) = c.header {
        lemma_enc_carousel_header_no_null(h);
    }
    let pa = seq![("type"@, JsonVal::Str(c.card_type))];
    let pb = crate::json::nonempty_arr_entry("items"@, crate::cards::spec_enc_cards(c.items));
    let pc = crate::json::opt_val_entry("header"@, enc_opt_carousel_header(c.header));
    crate::json::lemma_has_null_pairs_single("type"@, JsonVal::Str(c.card_type));
    crate::json::lemma_nonempty_arr_entry_null("items"@, crate::cards::spec_enc_cards(c.items));
    crate::json::lemma_opt_val_entry_null("header"@, enc_opt_carousel_header(c.header));
    crate::json::lemma_has_null_pairs_concat(pa, pb);
    crate::json::lemma_has_null_pairs_concat(pa + pb, pc);
}

/// An encoded output holds no `null`.
pub proof fn lemma_enc_output_no_null(t: TypesV)
    ensures
        !crate::json::has_null(spec_enc_output(t)),
{
    match t {
        TypesV::List(c) => lemma_enc_list_card_no_null(c),
        TypesV::Basic(c) => crate::cards::lemma_enc_basic_content_no_null(c),
        TypesV::Commerce(c) => crate::cards::lemma_enc_commerce_content_no_null(c),
        TypesV::Item(c) => crate::cards::lemma_enc_item_content_no_null(c),
        TypesV::SimpleTxt(c) => lemma_enc_simple_text_no_null(c),
        TypesV::SimpleImg(c) => lemma_enc_simple_image_no_null(c),
        TypesV::Carousel(c) => lemma_enc_carousel_no_null(c),
    }
    crate::json::lemma_has_null_pairs_single(output_key(t), output_payload(t));
}

/// An encoded output sequence holds no `null`.
pub proof fn lemma_enc_outputs_no_null(s: Seq<TypesV>)
    ensures
        !crate::json::has_null_seq(spec_enc_outputs(s)),
{
    crate::json::lemma_has_null_seq_iff(spec_enc_outputs(s));
    assert forall|i: int| 0 <= i < spec_enc_outputs(s).len() implies !crate::json::has_null(
        #[trigger] spec_enc_outputs(s)[i],
    ) by {
        lemma_enc_output_no_null(s[i]);
    }
}

/// Encoding never emits `null`, anywhere in a response: the wire tree of
/// every template is free of `null`, and so no absent optional value is
/// ever written as one.
pub proof fn lemma_template_no_null(t: TemplateV)
    ensures
        !crate::json::has_null(spec_enc_template(t)),
{
    lemma_enc_outputs_no_null(t.template.outputs);
    lemma_enc_quick_replies_no_null(t.template.quick_replies);
    let pa = seq![("outputs"@, JsonVal::Arr(spec_enc_outputs(t.template.outputs)))];
    let pb = crate::json::nonempty_arr_entry(
        "quickReplies"@,
        spec_enc_quick_replies(t.template.quick_replies),
    );
    crate::json::lemma_has_null_pairs_single(
        "outputs"@,
        JsonVal::Arr(spec_enc_outputs(t.template.outputs)),
    );
    crate::json::lemma_nonempty_arr_entry_null(
        "quickReplies"@,
        spec_enc_quick_replies(t.template.quick_replies),
    );
    crate::json::lemma_has_null_pairs_concat(pa, pb);
    let qa = seq![("template"@, spec_enc_outputs_obj(t.template))];
    let qb = seq![("version"@, JsonVal::Str(t.version))];
    assert(seq![
        ("template"@, spec_enc_outputs_obj(t.template)),
        ("version"@, JsonVal::Str(t.version)),
    ] =~= qa + qb);
    crate::json::lemma_has_null_pairs_single("template"@, spec_enc_outputs_obj(t.template));
    crate::json::lemma_has_null_pairs_single("version"@, JsonVal::Str(t.version));
    crate::json::lemma_has_null_pairs_concat(qa, qb);
}

/// An encoded link holds no over-wide integer.
pub proof fn lemma_enc_link_no_big_int(l: LinkV)
    ensures
        !crate::json::has_big_int(spec_enc_link(l)),
{
    crate::json::lemma_has_big_int_pairs_single("web"@, JsonVal::Str(l.web));
}

/// An encoded title holds no over-wide integer.
pub proof fn lemma_enc_title_no_big_int(t: TitleV)
    ensures
        !crate::json::has_big_int(spec_enc_title(t)),
{
    crate::json::lemma_has_big_int_pairs_single("title"@, JsonVal::Str(t.title));
}

/// An encoded list item holds no over-wide integer.
pub proof fn lemma_enc_list_item_no_big_int(it: ListItemV)
    ensures
        !crate::json::has_big_int(spec_enc_list_item(it)),
{
    if let Some(l) = it.link {
        lemma_enc_link_no_big_int(l);
    }
    let pa = seq![("title"@, JsonVal::Str(it.title))];
    let pb = opt_str_entry("description"@, it.description);
    let pc = opt_str_entry("imageUrl"@, it.image_url);
    let pd = crate::json::opt_val_entry("link"@, enc_opt_link(it.link));
    crate::json::lemma_has_big_int_pairs_single("title"@, JsonVal::Str(it.title));
    crate::json::lemma_opt_str_entry_no_big_int("description"@, it.description);
    crate::json::lemma_opt_str_entry_no_big_int("imageUrl"@, it.image_url);
    crate::json::lemma_opt_val_entry_big_int("link"@, enc_opt_link(it.link));
    crate::json::lemma_has_big_int_pairs_concat(pa, pb);
    crate::json::lemma_has_big_int_pairs_concat(pa + pb, pc);
    crate::json::lemma_has_big_int_pairs_concat(pa + pb + pc, pd);
}

/// An encoded list item sequence holds no over-wide integer.
pub proof fn lemma_enc_list_items_no_big_int(s: Seq<ListItemV>)
    ensures
        !crate::json::has_big_int_seq(spec_enc_list_items(s)),
{
    crate::json::lemma_has_big_int_seq_iff(spec_enc_list_items(s));
    assert forall|i: int| 0 <= i < spec_enc_list_items(s).len() implies !crate::json::has_big_int(
        #[trigger] spec_enc_list_items(s)[i],
    ) by {
        lemma_enc_list_item_no_big_int(s[i]);
    }
}

/// An encoded quick reply holds no over-wide integer.
pub proof fn lemma_enc_quick_reply_no_big_int(q: QuickReplyV)
    ensures
        !crate::json::has_big_int(spec_enc_quick_reply(q)),
{
    let pa = seq![("action"@, JsonVal::Str(q.action))];
    let pb = seq![("label"@, JsonVal::Str(q.label))];
    let pc = seq![("messageText"@, JsonVal::Str(q.message_text))];
    let pd = opt_str_entry("blockId"@, q.block_id);
    let p0 = seq![
        ("action"@, JsonVal::Str(q.action)),
        ("label"@, JsonVal::Str(q.label)),
        ("messageText"@, JsonVal::Str(q.message_text)),
    ];
    assert(p0 =~= pa + pb + pc);
    assert(p0 + pd =~= pa + pb + pc + pd);
    crate::json::lemma_has_big_int_pairs_single("action"@, JsonVal::Str(q.action));
    crate::json::lemma_has_big_int_pairs_single("label"@, JsonVal::Str(q.label));
    crate::json::lemma_has_big_int_pairs_single("messageText"@, JsonVal::Str(q.message_text));
    crate::json::lemma_opt_str_entry_no_big_int("blockId"@, q.block_id);
    crate::json::lemma_has_big_int_pairs_concat(pa, pb);
    crate::json::lemma_has_big_int_pairs_concat(pa + pb, pc);
    crate::json::lemma_has_big_int_pairs_concat(pa + pb + pc, pd);
}

/// An encoded quick reply sequence holds no over-wide integer.
pub proof fn lemma_enc_quick_replies_no_big_int(s: Seq<QuickReplyV>)
    ensures
        !crate::json::has_big_int_seq(spec_enc_quick_replies(s)),
{
    crate::json::lemma_has_big_int_seq_iff(spec_enc_quick_replies(s));
    assert forall|i: int| 0 <= i < spec_enc_quick_replies(s).len() implies !crate::json::has_big_int(
        #[trigger] spec_enc_quick_replies(s)[i],
    ) by {
        lemma_enc_quick_reply_no_big_int(s[i]);
    }
}

/// An encoded thumbnail holds no over-wide integer.
pub proof fn lemma_enc_thumbnail_no_big_int(t: ThumbNailV)
    ensures
        !crate::json::has_big_int(spec_enc_thumbnail(t)),
{
    if let Some(l) = t.link {
        lemma_enc_link_no_big_int(l);
    }
    let pa = seq![("imageUrl"@, JsonVal::Str(t.image_url))];
    let pb = crate::json::opt_val_entry("link"@, enc_opt_link(t.link));
    let pc = crate::json::flag_entry("fixedRatio"@, t.fixed_ratio);
    let pd = crate::json::opt_i32_entry("width"@, t.width);
    let pe = crate::json::opt_i32_entry("height"@, t.height);
    crate::json::lemma_has_big_int_pairs_single("imageUrl"@, JsonVal::Str(t.image_url));
    crate::json::lemma_opt_val_entry_big_int("link"@, enc_opt_link(t.link));
    crate::json::lemma_flag_entry_no_big_int("fixedRatio"@, t.fixed_ratio);
    crate::json::lemma_opt_i32_entry_no_big_int("width"@, t.width);
    crate::json::lemma_opt_i32_entry_no_big_int("height"@, t.height);
    crate::json::lemma_has_big_int_pairs_concat(pa, pb);
    crate::json::lemma_has_big_int_pairs_concat(pa + pb, pc);
    crate::json::lemma_has_big_int_pairs_concat(pa + pb + pc, pd);
    crate::json::lemma_has_big_int_pairs_concat(pa + pb + pc + pd, pe);
}

/// An encoded thumbnail sequence holds no over-wide integer.
pub proof fn lemma_enc_thumbnails_no_big_int(s: Seq<ThumbNailV>)
    ensures
        !crate::json::has_big_int_seq(spec_enc_thumbnails(s)),
{
    crate::json::lemma_has_big_int_seq_iff(spec_enc_thumbnails(s));
    assert forall|i: int| 0 <= i < spec_enc_thumbnails(s).len() implies !crate::json::has_big_int(
        #[trigger] spec_enc_thumbnails(s)[i],
    ) by {
        lemma_enc_thumbnail_no_big_int(s[i]);
    }
}

/// An encoded simple text holds no over-wide integer.
pub proof fn lemma_enc_simple_text_no_big_int(c: SimpleTextContentV)
    ensures
        !crate::json::has_big_int(spec_enc_simple_text(c)),
{
    crate::json::lemma_has_big_int_pairs_single("text"@, JsonVal::Str(c.text));
}

/// An encoded simple image holds no over-wide integer.
pub proof fn lemma_enc_simple_image_no_big_int(c: SimpleImageContentV)
    ensures
        !crate::json::has_big_int(spec_enc_simple_image(c)),
{
    let pa = seq![("imageUrl"@, JsonVal::Str(c.image_url))];
    let pb = seq![("altText"@, JsonVal::Str(c.alt_text))];
    assert(seq![("imageUrl"@, JsonVal::Str(c.image_url)), ("altText"@, JsonVal::Str(c.alt_text))]
        =~= pa + pb);
    crate::json::lemma_has_big_int_pairs_single("imageUrl"@, JsonVal::Str(c.image_url));
    crate::json::lemma_has_big_int_pairs_single("altText"@, JsonVal::Str(c.alt_text));
    crate::json::lemma_has_big_int_pairs_concat(pa, pb);
}

/// An encoded list card holds no over-wide integer.
pub proof fn lemma_enc_list_card_no_big_int(c: ListCardContentV)
    ensures
        !crate::json::has_big_int(spec_enc_list_card(c)),
{
    crate::buttons::lemma_enc_buttons_no_big_int(c.buttons);
    lemma_enc_title_no_big_int(c.header);
    lemma_enc_list_items_no_big_int(c.items);
    let pa = crate::json::nonempty_arr_entry(
        "buttons"@,
        crate::buttons::spec_enc_buttons(c.buttons),
    );
    let pb = seq![("header"@, spec_enc_title(c.header))];
    let pc = seq![("items"@, JsonVal::Arr(spec_enc_list_items(c.items)))];
    crate::json::lemma_nonempty_arr_entry_big_int(
        "buttons"@,
        crate::buttons::spec_enc_buttons(c.buttons),
    );
    crate::json::lemma_has_big_int_pairs_single("header"@, spec_enc_title(c.header));
    crate::json::lemma_has_big_int_pairs_single(
        "items"@,
        JsonVal::Arr(spec_enc_list_items(c.items)),
    );
    crate::json::lemma_has_big_int_pairs_concat(pa, pb);
    crate::json::lemma_has_big_int_pairs_concat(pa + pb, pc);
}

/// An encoded carousel header holds no over-wide integer.
pub proof fn lemma_enc_carousel_header_no_big_int(h: CarouselHeaderV)
    ensures
        !crate::json::has_big_int(spec_enc_carousel_header(h)),
{
    lemma_enc_thumbnail_no_big_int(h.thumbnail);
    let pa = seq![("title"@, JsonVal::Str(h.title))];
    let pb = seq![("description"@, JsonVal::Str(h.description))];
    let pc = seq![("thumbnail"@, spec_enc_thumbnail(h.thumbnail))];
    assert(seq![
        ("title"@, JsonVal::Str(h.title)),
        ("description"@, JsonVal::Str(h.description)),
        ("thumbnail"@, spec_enc_thumbnail(h.thumbnail)),
    ] =~= pa + pb + pc);
    crate::json::lemma_has_big_int_pairs_single("title"@, JsonVal::Str(h.title));
    crate::json::lemma_has_big_int_pairs_single("description"@, JsonVal::Str(h.description));
    crate::json::lemma_has_big_int_pairs_single("thumbnail"@, spec_enc_thumbnail(h.thumbnail));
    crate::json::lemma_has_big_int_pairs_concat(pa, pb);
    crate::json::lemma_has_big_int_pairs_concat(pa + pb, pc);
}

/// An encoded carousel holds no over-wide integer.
pub proof fn lemma_enc_carousel_no_big_int(c: CarouselContentV)
    ensures
        !crate::json::has_big_int(spec_enc_carousel(c)),
{
    crate::cards::lemma_enc_cards_no_big_int(c.items);
    if let Some(h) = c.header {
        lemma_enc_carousel_header_no_big_int(h);
    }
    let pa = seq![("type"@, JsonVal::Str(c.card_type))];
    let pb = crate::json::nonempty_arr_entry("items"@, crate::cards::spec_enc_cards(c.items));
    let pc = crate::json::opt_val_entry("header"@, enc_opt_carousel_header(c.header));
    crate::json::lemma_has_big_int_pairs_single("type"@, JsonVal::Str(c.card_type));
    crate::json::lemma_nonempty_arr_entry_big_int("items"@, crate::cards::spec_enc_cards(c.items));
    crate::json::lemma_opt_val_entry_big_int("header"@, enc_opt_carousel_header(c.header));
    crate::json::lemma_has_big_int_pairs_concat(pa, pb);
    crate::json::lemma_has_big_int_pairs_concat(pa + pb, pc);
}

/// An encoded output holds no over-wide integer.
pub proof fn lemma_enc_output_no_big_int(t: TypesV)
    ensures
        !crate::json::has_big_int(spec_enc_output(t)),
{
    match t {
        TypesV::List(c) => lemma_enc_list_card_no_big_int(c),
        TypesV::Basic(c) => crate::cards::lemma_enc_basic_content_no_big_int(c),
        TypesV::Commerce(c) => crate::cards::lemma_enc_commerce_content_no_big_int(c),
        TypesV::Item(c) => crate::cards::lemma_enc_item_content_no_big_int(c),
        TypesV::SimpleTxt(c) => lemma_enc_simple_text_no_big_int(c),
        TypesV::SimpleImg(c) => lemma_enc_simple_image_no_big_int(c),
        TypesV::Carousel(c) => lemma_enc_carousel_no_big_int(c),
    }
    crate::json::lemma_has_big_int_pairs_single(output_key(t), output_payload(t));
}

/// An encoded output sequence holds no over-wide integer.
pub proof fn lemma_enc_outputs_no_big_int(s: Seq<TypesV>)
    ensures
        !crate::json::has_big_int_seq(spec_enc_outputs(s)),
{
    crate::json::lemma_has_big_int_seq_iff(spec_enc_outputs(s));
    assert forall|i: int| 0 <= i < spec_enc_outputs(s).len() implies !crate::json::has_big_int(
        #[trigger] spec_enc_outputs(s)[i],
    ) by {
        lemma_enc_output_no_big_int(s[i]);
    }
}

/// Encoding writes only integers that fit the eighteen-digit wire
/// form: every number in a template's wire tree is a 32-bit value.
pub proof fn lemma_template_no_big_int(t: TemplateV)
    ensures
        !crate::json::has_big_int(spec_enc_template(t)),
{
    lemma_enc_outputs_no_big_int(t.template.outputs);
    lemma_enc_quick_replies_no_big_int(t.template.quick_replies);
    let pa = seq![("outputs"@, JsonVal::Arr(spec_enc_outputs(t.template.outputs)))];
    let pb = crate::json::nonempty_arr_entry(
        "quickReplies"@,
        spec_enc_quick_replies(t.template.quick_replies),
    );
    crate::json::lemma_has_big_int_pairs_single(
        "outputs"@,
        JsonVal::Arr(spec_enc_outputs(t.template.outputs)),
    );
    crate::json::lemma_nonempty_arr_entry_big_int(
        "quickReplies"@,
        spec_enc_quick_replies(t.template.quick_replies),
    );
    crate::json::lemma_has_big_int_pairs_concat(pa, pb);
    let qa = seq![("template"@, spec_enc_outputs_obj(t.template))];
    let qb = seq![("version"@, JsonVal::Str(t.version))];
    assert(seq![
        ("template"@, spec_enc_outputs_obj(t.template)),
        ("version"@, JsonVal::Str(t.version)),
    ] =~= qa + qb);
    crate::json::lemma_has_big_int_pairs_single("template"@, spec_enc_outputs_obj(t.template));
    crate::json::lemma_has_big_int_pairs_single("version"@, JsonVal::Str(t.version));
    crate::json::lemma_has_big_int_pairs_concat(qa, qb);
}

/// Round trip through the wire text itself: printing a well-formed
/// response and parsing the text back yields the same response.
pub proof fn lemma_template_text_round_trip(t: TemplateV)
    requires
        t.wf(),
    ensures
        spec_template_from_text(crate::text::text_of(spec_enc_template(t))) == Some(t),
{
    lemma_template_no_big_int(t);
    crate::parse::lemma_parse_of_text(spec_enc_template(t));
    lemma_template_round_trip(t);
}

} // verus!
