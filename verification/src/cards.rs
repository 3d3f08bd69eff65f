//! Card content shapes: basic, commerce and item cards, standalone or
//! embedded in a carousel.

use vstd::prelude::*;
use vstd::string::StringExecFns;

use crate::json::{
    obj_lookup, keys_unique, keys_within, pairs_view, req_str_field, opt_str_field, opt_i32_field,
    req_i32_field, obj_push, keys_ok, get_req_str, get_opt_str, get_opt_i32, get_req_i32, obj_get,
    opt_view, opt_str_entry, opt_i32_entry, opt_val_entry, nonempty_arr_entry, strs_view,
    lemma_lookup_concat, lemma_lookup_single, lemma_opt_str_entry,
    lemma_opt_i32_entry, lemma_opt_val_entry, lemma_nonempty_arr_entry, lemma_keys_unique_concat,
    lemma_keys_within_concat, arr_push, vals_view, lemma_vals_view_len,
    lemma_vals_view_index, DecodeError, JsonVal, JsonValue,
};
use crate::basics::{
    ThumbNail, ThumbNailV, spec_enc_thumbnail, spec_dec_thumbnail, lemma_thumbnail_round_trip,
};
use crate::buttons::{
    Button, ButtonV, buttons_view, spec_enc_buttons, spec_dec_buttons, encode_buttons,
    decode_buttons, lemma_buttons_round_trip,
};

verus! {

broadcast use vstd::seq::group_seq_axioms, vstd::string::group_string_axioms;

/// The heading of an item card.
#[derive(Debug)]
pub struct Head {
    pub title: String,
}

/// Model of a head.
#[verifier::ext_equal]
pub struct HeadV {
    pub title: Seq<char>,
}

impl View for Head {
    type V = HeadV;

    open spec fn view(&self) -> HeadV {
        HeadV {
            title: self.title@,
        }
    }
}

/// Encoding of a head.
pub open spec fn spec_enc_head(x: HeadV) -> JsonVal {
    JsonVal::Obj(seq![("title"@, JsonVal::Str(x.title))])
}

/// The keys a head object may hold.
pub open spec fn head_allowed_keys() -> Seq<Seq<char>> {
    seq!["title"@]
}

/// Decoding of a head object.
pub open spec fn spec_dec_head(v: JsonVal) -> Option<HeadV> {
    match v {
        JsonVal::Obj(p) => if !keys_unique(p) || !keys_within(p, head_allowed_keys()) {
            None
        } else {
            match (req_str_field(p, "title"@)) {
                (Some(title_v)) => Some(HeadV { title: title_v }),
                _ => None,
            }
        },
        _ => None,
    }
}

impl Head {
    /// Encodes this head as its wire object.
    pub fn encode(&self) -> (r: JsonValue)
        ensures
            r@ == spec_enc_head(self@),
    {
        let mut o: Vec<(String, JsonValue)> = Vec::new();
        obj_push(&mut o, "title", JsonValue::Str(self.title.clone()));
        let r = JsonValue::Obj(o);
        proof {
            assert(r@ matches JsonVal::Obj(p) && p =~= seq![("title"@, JsonVal::Str(self@.title))]);
        }
        r
    }

    /// Decodes a head from its wire object.
    pub fn decode(v: &JsonValue) -> (r: Result<Head, DecodeError>)
        ensures
            match r {
                Ok(x) => spec_dec_head(v@) == Some(x@),
                Err(_) => spec_dec_head(v@) is None,
            },
    {
        let pairs = match v {
            JsonValue::Obj(pairs) => pairs,
            _ => { return Err(DecodeError::WrongType); },
        };
        let allowed: Vec<&str> = vec!["title"];
        proof {
            assert(strs_view(allowed@) =~= head_allowed_keys());
        }
        if !keys_ok(pairs, &allowed) {
            return Err(DecodeError::UnknownField);
        }
        let title = match get_req_str(pairs, "title") {
            Ok(x) => x,
            Err(e) => { return Err(e); },
        };
        Ok(Head { title })
    }
}

/// Round trip: decoding an encoded head gives it back.
pub proof fn lemma_head_round_trip(x: HeadV)
    ensures
        spec_dec_head(spec_enc_head(x)) == Some(x),
{
    let p0 = seq![("title"@, JsonVal::Str(x.title))];
    let p = p0;
    assert(spec_enc_head(x) == JsonVal::Obj(p)) by {
        assert(p =~= seq![("title"@, JsonVal::Str(x.title))]);
    }
    lemma_lookup_single("title"@, JsonVal::Str(x.title));
    let allowed = head_allowed_keys();
    assert(allowed.contains("title"@)) by {
        assert(allowed[0] == "title"@);
    }
    assert(keys_within(p0, allowed));
    assert(spec_dec_head(JsonVal::Obj(p)) == Some(x));
}

/// One row of an item card's list: a title and a description.
#[derive(Debug)]
pub struct ItemList {
    pub title: String,
    pub description: String,
}

/// Model of a item_row.
#[verifier::ext_equal]
pub struct ItemListV {
    pub title: Seq<char>,
    pub description: Seq<char>,
}

impl View for ItemList {
    type V = ItemListV;

    open spec fn view(&self) -> ItemListV {
        ItemListV {
            title: self.title@,
            description: self.description@,
        }
    }
}

/// Encoding of a item_row.
pub open spec fn spec_enc_item_row(x: ItemListV) -> JsonVal {
    JsonVal::Obj(seq![("title"@, JsonVal::Str(x.title)), ("description"@, JsonVal::Str(x.description))])
}

/// The keys a item_row object may hold.
pub open spec fn item_row_allowed_keys() -> Seq<Seq<char>> {
    seq!["title"@, "description"@]
}

/// Decoding of a item_row object.
pub open spec fn spec_dec_item_row(v: JsonVal) -> Option<ItemListV> {
    match v {
        JsonVal::Obj(p) => if !keys_unique(p) || !keys_within(p, item_row_allowed_keys()) {
            None
        } else {
            match (req_str_field(p, "title"@), req_str_field(p, "description"@)) {
                (Some(title_v), Some(description_v)) => Some(ItemListV { title: title_v, description: description_v }),
                _ => None,
            }
        },
        _ => None,
    }
}

impl ItemList {
    /// Encodes this item_row as its wire object.
    pub fn encode(&self) -> (r: JsonValue)
        ensures
            r@ == spec_enc_item_row(self@),
    {
        let mut o: Vec<(String, JsonValue)> = Vec::new();
        obj_push(&mut o, "title", JsonValue::Str(self.title.clone()));
        obj_push(&mut o, "description", JsonValue::Str(self.description.clone()));
        let r = JsonValue::Obj(o);
        proof {
            assert(r@ matches JsonVal::Obj(p) && p =~= seq![("title"@, JsonVal::Str(self@.title)), ("description"@, JsonVal::Str(self@.description))]);
        }
        r
    }

    /// Decodes a item_row from its wire object.
    pub fn decode(v: &JsonValue) -> (r: Result<ItemList, DecodeError>)
        ensures
            match r {
                Ok(x) => spec_dec_item_row(v@) == Some(x@),
                Err(_) => spec_dec_item_row(v@) is None,
            },
    {
        let pairs = match v {
            JsonValue::Obj(pairs) => pairs,
            _ => { return Err(DecodeError::WrongType); },
        };
        let allowed: Vec<&str> = vec!["title", "description"];
        proof {
            assert(strs_view(allowed@) =~= item_row_allowed_keys());
        }
        if !keys_ok(pairs, &allowed) {
            return Err(DecodeError::UnknownField);
        }
        let title = match get_req_str(pairs, "title") {
            Ok(x) => x,
            Err(e) => { return Err(e); },
        };
        let description = match get_req_str(pairs, "description") {
            Ok(x) => x,
            Err(e) => { return Err(e); },
        };
        Ok(ItemList { title, description })
    }
}

/// Round trip: decoding an encoded item_row gives it back.
pub proof fn lemma_item_row_round_trip(x: ItemListV)
    ensures
        spec_dec_item_row(spec_enc_item_row(x)) == Some(x),
{
    reveal_strlit("title");
    reveal_strlit("description");
    assert("title"@.len() == 5 && "description"@.len() == 11);
    let p0 = seq![("title"@, JsonVal::Str(x.title))];
    let p1 = seq![("description"@, JsonVal::Str(x.description))];
    let p = p0 + p1;
    assert(spec_enc_item_row(x) == JsonVal::Obj(p)) by {
        assert(p =~= seq![("title"@, JsonVal::Str(x.title)), ("description"@, JsonVal::Str(x.description))]);
    }
    lemma_lookup_single("title"@, JsonVal::Str(x.title));
    lemma_lookup_single("description"@, JsonVal::Str(x.description));
    lemma_lookup_concat(p0, p1);
    lemma_keys_unique_concat(p0, p1);
    let allowed = item_row_allowed_keys();
    assert(allowed.contains("title"@) && allowed.contains("description"@)) by {
        assert(allowed[0] == "title"@ && allowed[1] == "description"@);
    }
    assert(keys_within(p0, allowed));
    assert(keys_within(p1, allowed));
    lemma_keys_within_concat(p0, p1, allowed);
    assert(spec_dec_item_row(JsonVal::Obj(p)) == Some(x));
}

/// The summary row of an item card's list.
#[derive(Debug)]
pub struct ItemListSummary {
    pub title: String,
    pub description: String,
}

/// Model of a item_summary.
#[verifier::ext_equal]
pub struct ItemListSummaryV {
    pub title: Seq<char>,
    pub description: Seq<char>,
}

impl View for ItemListSummary {
    type V = ItemListSummaryV;

    open spec fn view(&self) -> ItemListSummaryV {
        ItemListSummaryV {
            title: self.title@,
            description: self.description@,
        }
    }
}

/// Encoding of a item_summary.
pub open spec fn spec_enc_item_summary(x: ItemListSummaryV) -> JsonVal {
    JsonVal::Obj(seq![("title"@, JsonVal::Str(x.title)), ("description"@, JsonVal::Str(x.description))])
}

/// The keys a item_summary object may hold.
pub open spec fn item_summary_allowed_keys() -> Seq<Seq<char>> {
    seq!["title"@, "description"@]
}

/// Decoding of a item_summary object.
pub open spec fn spec_dec_item_summary(v: JsonVal) -> Option<ItemListSummaryV> {
    match v {
        JsonVal::Obj(p) => if !keys_unique(p) || !keys_within(p, item_summary_allowed_keys()) {
            None
        } else {
            match (req_str_field(p, "title"@), req_str_field(p, "description"@)) {
                (Some(title_v), Some(description_v)) => Some(ItemListSummaryV { title: title_v, description: description_v }),
                _ => None,
            }
        },
        _ => None,
    }
}

impl ItemListSummary {
    /// Encodes this item_summary as its wire object.
    pub fn encode(&self) -> (r: JsonValue)
        ensures
            r@ == spec_enc_item_summary(self@),
    {
        let mut o: Vec<(String, JsonValue)> = Vec::new();
        obj_push(&mut o, "title", JsonValue::Str(self.title.clone()));
        obj_push(&mut o, "description", JsonValue::Str(self.description.clone()));
        let r = JsonValue::Obj(o);
        proof {
            assert(r@ matches JsonVal::Obj(p) && p =~= seq![("title"@, JsonVal::Str(self@.title)), ("description"@, JsonVal::Str(self@.description))]);
        }
        r
    }

    /// Decodes a item_summary from its wire object.
    pub fn decode(v: &JsonValue) -> (r: Result<ItemListSummary, DecodeError>)
        ensures
            match r {
                Ok(x) => spec_dec_item_summary(v@) == Some(x@),
                Err(_) => spec_dec_item_summary(v@) is None,
            },
    {
        let pairs = match v {
            JsonValue::Obj(pairs) => pairs,
            _ => { return Err(DecodeError::WrongType); },
        };
        let allowed: Vec<&str> = vec!["title", "description"];
        proof {
            assert(strs_view(allowed@) =~= item_summary_allowed_keys());
        }
        if !keys_ok(pairs, &allowed) {
            return Err(DecodeError::UnknownField);
        }
        let title = match get_req_str(pairs, "title") {
            Ok(x) => x,
            Err(e) => { return Err(e); },
        };
        let description = match get_req_str(pairs, "description") {
            Ok(x) => x,
            Err(e) => { return Err(e); },
        };
        Ok(ItemListSummary { title, description })
    }
}

/// Round trip: decoding an encoded item_summary gives it back.
pub proof fn lemma_item_summary_round_trip(x: ItemListSummaryV)
    ensures
        spec_dec_item_summary(spec_enc_item_summary(x)) == Some(x),
{
    reveal_strlit("title");
    reveal_strlit("description");
    assert("title"@.len() == 5 && "description"@.len() == 11);
    let p0 = seq![("title"@, JsonVal::Str(x.title))];
    let p1 = seq![("description"@, JsonVal::Str(x.description))];
    let p = p0 + p1;
    assert(spec_enc_item_summary(x) == JsonVal::Obj(p)) by {
        assert(p =~= seq![("title"@, JsonVal::Str(x.title)), ("description"@, JsonVal::Str(x.description))]);
    }
    lemma_lookup_single("title"@, JsonVal::Str(x.title));
    lemma_lookup_single("description"@, JsonVal::Str(x.description));
    lemma_lookup_concat(p0, p1);
    lemma_keys_unique_concat(p0, p1);
    let allowed = item_summary_allowed_keys();
    assert(allowed.contains("title"@) && allowed.contains("description"@)) by {
        assert(allowed[0] == "title"@ && allowed[1] == "description"@);
    }
    assert(keys_within(p0, allowed));
    assert(keys_within(p1, allowed));
    lemma_keys_within_concat(p0, p1, allowed);
    assert(spec_dec_item_summary(JsonVal::Obj(p)) == Some(x));
}

/// The image/title header block of an item card.
#[derive(Debug)]
pub struct ImageTitle {
    pub title: String,
    pub description: Option<String>,
    pub image_url: Option<String>,
}

/// Model of an image title.
#[verifier::ext_equal]
pub struct ImageTitleV {
    pub title: Seq<char>,
    pub description: Option<Seq<char>>,
    pub image_url: Option<Seq<char>>,
}

impl View for ImageTitle {
    type V = ImageTitleV;

    open spec fn view(&self) -> ImageTitleV {
        ImageTitleV {
            title: self.title@,
            description: opt_view(self.description),
            image_url: opt_view(self.image_url),
        }
    }
}

/// Encoding of an image title.
pub open spec fn spec_enc_image_title(x: ImageTitleV) -> JsonVal {
    JsonVal::Obj(
        seq![("title"@, JsonVal::Str(x.title))] + opt_str_entry("description"@, x.description)
            + opt_str_entry("imageUrl"@, x.image_url),
    )
}

/// The keys an image title object may hold.
pub open spec fn image_title_allowed_keys() -> Seq<Seq<char>> {
    seq!["title"@, "description"@, "imageUrl"@]
}

/// Decoding of an image title object.
pub open spec fn spec_dec_image_title(v: JsonVal) -> Option<ImageTitleV> {
    match v {
        JsonVal::Obj(p) => if !keys_unique(p) || !keys_within(p, image_title_allowed_keys()) {
            None
        } else {
            match (req_str_field(p, "title"@), opt_str_field(p, "description"@), opt_str_field(
                p,
                "imageUrl"@,
            )) {
                (Some(t), Some(d), Some(iu)) => Some(
                    ImageTitleV { title: t, description: d, image_url: iu },
                ),
                _ => None,
            }
        },
        _ => None,
    }
}

impl ImageTitle {
    /// An image title with the given heading and nothing else.
    pub fn new(title: &str) -> (r: ImageTitle)
        ensures
            r@ == (ImageTitleV { title: title@, description: None, image_url: None }),
    {
        ImageTitle { title: String::from_str(title), description: None, image_url: None }
    }

    /// Sets the heading.
    pub fn set_title(&mut self, title: &str)
        ensures
            final(self)@ == (ImageTitleV { title: title@, ..old(self)@ }),
    {
        self.title = String::from_str(title);
    }

    /// Sets the description.
    pub fn set_desc(&mut self, desc: &str)
        ensures
            final(self)@ == (ImageTitleV { description: Some(desc@), ..old(self)@ }),
    {
        self.description = Some(String::from_str(desc));
    }

    /// Sets the image URL.
    pub fn set_image(&mut self, url: &str)
        ensures
            final(self)@ == (ImageTitleV { image_url: Some(url@), ..old(self)@ }),
    {
        self.image_url = Some(String::from_str(url));
    }

    /// The wire tag of the card kind this block belongs to.
    pub fn id() -> (r: String)
        ensures
            r@ == "itemCard"@,
    {
        String::from_str("itemCard")
    }

    /// Encodes this image title as its wire object.
    pub fn encode(&self) -> (r: JsonValue)
        ensures
            r@ == spec_enc_image_title(self@),
    {
        let mut o: Vec<(String, JsonValue)> = Vec::new();
        obj_push(&mut o, "title", JsonValue::Str(self.title.clone()));
        if let Some(d) = &self.description {
            obj_push(&mut o, "description", JsonValue::Str(d.clone()));
        }
        if let Some(iu) = &self.image_url {
            obj_push(&mut o, "imageUrl", JsonValue::Str(iu.clone()));
        }
        let r = JsonValue::Obj(o);
        proof {
            assert(r@ matches JsonVal::Obj(p) && p =~= (seq![("title"@, JsonVal::Str(self@.title))]
                + opt_str_entry("description"@, self@.description) + opt_str_entry(
                "imageUrl"@,
                self@.image_url,
            )));
        }
        r
    }

    /// Decodes an image title from its wire object.
    pub fn decode(v: &JsonValue) -> (r: Result<ImageTitle, DecodeError>)
        ensures
            match r {
                Ok(x) => spec_dec_image_title(v@) == Some(x@),
                Err(_) => spec_dec_image_title(v@) is None,
            },
    {
        let pairs = match v {
            JsonValue::Obj(pairs) => pairs,
            _ => { return Err(DecodeError::WrongType); },
        };
        let allowed: Vec<&str> = vec!["title", "description", "imageUrl"];
        proof {
            assert(strs_view(allowed@) =~= image_title_allowed_keys());
        }
        if !keys_ok(pairs, &allowed) {
            return Err(DecodeError::UnknownField);
        }
        let title = match get_req_str(pairs, "title") {
            Ok(t) => t,
            Err(e) => { return Err(e); },
        };
        let description = match get_opt_str(pairs, "description") {
            Ok(d) => d,
            Err(e) => { return Err(e); },
        };
        let image_url = match get_opt_str(pairs, "imageUrl") {
            Ok(iu) => iu,
            Err(e) => { return Err(e); },
        };
        Ok(ImageTitle { title, description, image_url })
    }
}

/// The image title keys are pairwise distinct.
pub proof fn lemma_image_title_keys()
    ensures
        "title"@ != "description"@,
        "title"@ != "imageUrl"@,
        "description"@ != "imageUrl"@,
{
    reveal_strlit("title");
    reveal_strlit("description");
    reveal_strlit("imageUrl");
    assert("title"@.len() == 5 && "description"@.len() == 11 && "imageUrl"@.len() == 8);
}

/// Round trip: decoding an encoded image title gives it back.
pub proof fn lemma_image_title_round_trip(x: ImageTitleV)
    ensures
        spec_dec_image_title(spec_enc_image_title(x)) == Some(x),
{
    lemma_image_title_keys();
    let pa = seq![("title"@, JsonVal::Str(x.title))];
    let pb = opt_str_entry("description"@, x.description);
    let pc = opt_str_entry("imageUrl"@, x.image_url);
    let p = pa + pb + pc;
    lemma_lookup_single("title"@, JsonVal::Str(x.title));
    lemma_opt_str_entry("description"@, x.description);
    lemma_opt_str_entry("imageUrl"@, x.image_url);
    lemma_lookup_concat(pa, pb);
    lemma_lookup_concat(pa + pb, pc);
    lemma_keys_unique_concat(pa, pb);
    lemma_keys_unique_concat(pa + pb, pc);
    let allowed = image_title_allowed_keys();
    assert(allowed.contains("title"@) && allowed.contains("description"@) && allowed.contains(
        "imageUrl"@,
    )) by {
        assert(allowed[0] == "title"@ && allowed[1] == "description"@ && allowed[2] == "imageUrl"@);
    }
    assert(keys_within(pa, allowed));
    assert(keys_within(pb, allowed));
    assert(keys_within(pc, allowed));
    lemma_keys_within_concat(pa, pb, allowed);
    lemma_keys_within_concat(pa + pb, pc, allowed);
    assert(spec_dec_image_title(spec_enc_image_title(x)) == Some(x));
}

/// The encoded form of an optional thumbnail.
pub open spec fn enc_opt_thumbnail(o: Option<ThumbNailV>) -> Option<JsonVal> {
    match o {
        Some(x) => Some(spec_enc_thumbnail(x)),
        None => None,
    }
}

/// Model of an optional thumbnail value.
pub open spec fn opt_thumbnail_view(o: Option<ThumbNail>) -> Option<ThumbNailV> {
    match o {
        Some(x) => Some(x@),
        None => None,
    }
}

/// An optional nested thumbnail field: an absent key is `Some(None)`; a value
/// of the wrong shape is an error.
pub open spec fn opt_thumbnail_field(p: Seq<(Seq<char>, JsonVal)>, key: Seq<char>) -> Option<
    Option<ThumbNailV>,
> {
    match obj_lookup(p, key) {
        None => Some(None),
        Some(v) => match spec_dec_thumbnail(v) {
            Some(x) => Some(Some(x)),
            None => None,
        },
    }
}

fn get_opt_thumbnail(pairs: &Vec<(String, JsonValue)>, key: &str) -> (r: Result<
    Option<ThumbNail>,
    DecodeError,
>)
    ensures
        match r {
            Ok(Some(x)) => opt_thumbnail_field(pairs_view(pairs@), key@) == Some(Some(x@)),
            Ok(None) => opt_thumbnail_field(pairs_view(pairs@), key@) == Some(None::<ThumbNailV>),
            Err(_) => opt_thumbnail_field(pairs_view(pairs@), key@) is None,
        },
{
    match obj_get(pairs, key) {
        Some(v) => match ThumbNail::decode(v) {
            Ok(x) => Ok(Some(x)),
            Err(e) => Err(e),
        },
        None => Ok(None),
    }
}

/// The encoded form of an optional head.
pub open spec fn enc_opt_head(o: Option<HeadV>) -> Option<JsonVal> {
    match o {
        Some(x) => Some(spec_enc_head(x)),
        None => None,
    }
}

/// Model of an optional head value.
pub open spec fn opt_head_view(o: Option<Head>) -> Option<HeadV> {
    match o {
        Some(x) => Some(x@),
        None => None,
    }
}

/// An optional nested head field: an absent key is `Some(None)`; a value
/// of the wrong shape is an error.
pub open spec fn opt_head_field(p: Seq<(Seq<char>, JsonVal)>, key: Seq<char>) -> Option<
    Option<HeadV>,
> {
    match obj_lookup(p, key) {
        None => Some(None),
        Some(v) => match spec_dec_head(v) {
            Some(x) => Some(Some(x)),
            None => None,
        },
    }
}

fn get_opt_head(pairs: &Vec<(String, JsonValue)>, key: &str) -> (r: Result<
    Option<Head>,
    DecodeError,
>)
    ensures
        match r {
            Ok(Some(x)) => opt_head_field(pairs_view(pairs@), key@) == Some(Some(x@)),
            Ok(None) => opt_head_field(pairs_view(pairs@), key@) == Some(None::<HeadV>),
            Err(_) => opt_head_field(pairs_view(pairs@), key@) is None,
        },
{
    match obj_get(pairs, key) {
        Some(v) => match Head::decode(v) {
            Ok(x) => Ok(Some(x)),
            Err(e) => Err(e),
        },
        None => Ok(None),
    }
}

/// The encoded form of an optional image_title.
pub open spec fn enc_opt_image_title(o: Option<ImageTitleV>) -> Option<JsonVal> {
    match o {
        Some(x) => Some(spec_enc_image_title(x)),
        None => None,
    }
}

/// Model of an optional image_title value.
pub open spec fn opt_image_title_view(o: Option<ImageTitle>) -> Option<ImageTitleV> {
    match o {
        Some(x) => Some(x@),
        None => None,
    }
}

/// An optional nested image_title field: an absent key is `Some(None)`; a value
/// of the wrong shape is an error.
pub open spec fn opt_image_title_field(p: Seq<(Seq<char>, JsonVal)>, key: Seq<char>) -> Option<
    Option<ImageTitleV>,
> {
    match obj_lookup(p, key) {
        None => Some(None),
        Some(v) => match spec_dec_image_title(v) {
            Some(x) => Some(Some(x)),
            None => None,
        },
    }
}

fn get_opt_image_title(pairs: &Vec<(String, JsonValue)>, key: &str) -> (r: Result<
    Option<ImageTitle>,
    DecodeError,
>)
    ensures
        match r {
            Ok(Some(x)) => opt_image_title_field(pairs_view(pairs@), key@) == Some(Some(x@)),
            Ok(None) => opt_image_title_field(pairs_view(pairs@), key@) == Some(None::<ImageTitleV>),
            Err(_) => opt_image_title_field(pairs_view(pairs@), key@) is None,
        },
{
    match obj_get(pairs, key) {
        Some(v) => match ImageTitle::decode(v) {
            Ok(x) => Ok(Some(x)),
            Err(e) => Err(e),
        },
        None => Ok(None),
    }
}

/// The encoded form of an optional item_summary.
pub open spec fn enc_opt_item_summary(o: Option<ItemListSummaryV>) -> Option<JsonVal> {
    match o {
        Some(x) => Some(spec_enc_item_summary(x)),
        None => None,
    }
}

/// Model of an optional item_summary value.
pub open spec fn opt_item_summary_view(o: Option<ItemListSummary>) -> Option<ItemListSummaryV> {
    match o {
        Some(x) => Some(x@),
        None => None,
    }
}

/// An optional nested item_summary field: an absent key is `Some(None)`; a value
/// of the wrong shape is an error.
pub open spec fn opt_item_summary_field(p: Seq<(Seq<char>, JsonVal)>, key: Seq<char>) -> Option<
    Option<ItemListSummaryV>,
> {
    match obj_lookup(p, key) {
        None => Some(None),
        Some(v) => match spec_dec_item_summary(v) {
            Some(x) => Some(Some(x)),
            None => None,
        },
    }
}

fn get_opt_item_summary(pairs: &Vec<(String, JsonValue)>, key: &str) -> (r: Result<
    Option<ItemListSummary>,
    DecodeError,
>)
    ensures
        match r {
            Ok(Some(x)) => opt_item_summary_field(pairs_view(pairs@), key@) == Some(Some(x@)),
            Ok(None) => opt_item_summary_field(pairs_view(pairs@), key@) == Some(None::<ItemListSummaryV>),
            Err(_) => opt_item_summary_field(pairs_view(pairs@), key@) is None,
        },
{
    match obj_get(pairs, key) {
        Some(v) => match ItemListSummary::decode(v) {
            Ok(x) => Ok(Some(x)),
            Err(e) => Err(e),
        },
        None => Ok(None),
    }
}

/// Models of a sequence of item row values.
pub open spec fn item_rows_view(s: Seq<ItemList>) -> Seq<ItemListV> {
    Seq::new(s.len(), |i: int| s[i]@)
}

/// Encoded forms of a sequence of item rows, in order.
pub open spec fn spec_enc_item_rows(s: Seq<ItemListV>) -> Seq<JsonVal> {
    Seq::new(s.len(), |i: int| spec_enc_item_row(s[i]))
}

/// Decoding of a sequence of item rows; any failing element fails the whole.
pub open spec fn spec_dec_item_rows(s: Seq<JsonVal>) -> Option<Seq<ItemListV>>
    decreases s,
{
    if s.len() == 0 {
        Some(Seq::empty())
    } else {
        match (spec_dec_item_rows(s.drop_last()), spec_dec_item_row(s.last())) {
            (Some(rest), Some(x)) => Some(rest.push(x)),
            _ => None,
        }
    }
}

proof fn lemma_dec_item_rows_prefix_none(s: Seq<JsonVal>, i: int)
    requires
        0 <= i <= s.len(),
        spec_dec_item_rows(s.take(i)) is None,
    ensures
        spec_dec_item_rows(s) is None,
    decreases s.len() - i,
{
    if i == s.len() {
        assert(s.take(i) =~= s);
    } else {
        assert(s.take(i + 1).drop_last() =~= s.take(i));
        lemma_dec_item_rows_prefix_none(s, i + 1);
    }
}

/// Encodes each element, keeping order.
pub fn encode_item_rows(v: &Vec<ItemList>) -> (r: Vec<JsonValue>)
    ensures
        vals_view(r@) == spec_enc_item_rows(item_rows_view(v@)),
{
    let mut out: Vec<JsonValue> = Vec::new();
    let n = v.len();
    let mut i: usize = 0;
    while i < n
        invariant
            n == v.len(),
            0 <= i <= n,
            vals_view(out@) == spec_enc_item_rows(item_rows_view(v@)).take(i as int),
        decreases n - i,
    {
        arr_push(&mut out, v[i].encode());
        proof {
            assert(vals_view(out@) =~= spec_enc_item_rows(item_rows_view(v@)).take(i as int + 1));
        }
        i = i + 1;
    }
    proof {
        assert(spec_enc_item_rows(item_rows_view(v@)).take(n as int) =~= spec_enc_item_rows(item_rows_view(v@)));
    }
    out
}

/// Decodes each element, keeping order; the first failure is reported.
pub fn decode_item_rows(v: &Vec<JsonValue>) -> (r: Result<Vec<ItemList>, DecodeError>)
    ensures
        match r {
            Ok(xs) => spec_dec_item_rows(vals_view(v@)) == Some(item_rows_view(xs@)),
            Err(_) => spec_dec_item_rows(vals_view(v@)) is None,
        },
{
    let mut out: Vec<ItemList> = Vec::new();
    let n = v.len();
    let mut i: usize = 0;
    while i < n
        invariant
            n == v.len(),
            0 <= i <= n,
            out.len() == i,
            spec_dec_item_rows(vals_view(v@).take(i as int)) == Some(item_rows_view(out@)),
        decreases n - i,
    {
        proof {
            lemma_vals_view_len(v@);
            lemma_vals_view_index(v@, i as int);
            assert(vals_view(v@).take(i as int + 1).drop_last() =~= vals_view(v@).take(i as int));
            assert(vals_view(v@).take(i as int + 1).last() == v@[i as int]@);
        }
        match ItemList::decode(&v[i]) {
            Ok(x) => {
                let ghost prev = item_rows_view(out@);
                out.push(x);
                proof {
                    assert(item_rows_view(out@) =~= prev.push(x@));
                }
            },
            Err(e) => {
                proof {
                    assert(spec_dec_item_rows(vals_view(v@).take(i as int + 1)) is None);
                    lemma_dec_item_rows_prefix_none(vals_view(v@), i as int + 1);
                }
                return Err(e);
            },
        }
        i = i + 1;
    }
    proof {
        lemma_vals_view_len(v@);
        assert(vals_view(v@).take(n as int) =~= vals_view(v@));
    }
    Ok(out)
}

/// Round trip for a whole sequence of item rows.
pub proof fn lemma_item_rows_round_trip(s: Seq<ItemListV>)
    ensures
        spec_dec_item_rows(spec_enc_item_rows(s)) == Some(s),
    decreases s,
{
    if s.len() == 0 {
        assert(spec_enc_item_rows(s) =~= Seq::<JsonVal>::empty());
    } else {
        assert(spec_enc_item_rows(s).drop_last() =~= spec_enc_item_rows(s.drop_last()));
        assert(spec_enc_item_rows(s).last() == spec_enc_item_row(s.last()));
        lemma_item_rows_round_trip(s.drop_last());
        lemma_item_row_round_trip(s.last());
        assert(s.drop_last().push(s.last()) =~= s);
        assert(spec_dec_item_rows(spec_enc_item_rows(s)) == Some(s));
    }
}

/// A `buttons`-style array field: absent means empty; present must be an
/// array whose every element decodes.
pub open spec fn buttons_arr_field(p: Seq<(Seq<char>, JsonVal)>, key: Seq<char>) -> Option<
    Seq<ButtonV>,
> {
    match obj_lookup(p, key) {
        None => Some(Seq::empty()),
        Some(JsonVal::Arr(a)) => spec_dec_buttons(a),
        Some(_) => None,
    }
}

pub fn get_buttons_arr(pairs: &Vec<(String, JsonValue)>, key: &str) -> (r: Result<
    Vec<Button>,
    DecodeError,
>)
    ensures
        match r {
            Ok(bs) => buttons_arr_field(pairs_view(pairs@), key@) == Some(buttons_view(bs@)),
            Err(_) => buttons_arr_field(pairs_view(pairs@), key@) is None,
        },
{
    match obj_get(pairs, key) {
        Some(v) => match v {
            JsonValue::Arr(a) => decode_buttons(a),
            _ => Err(DecodeError::WrongType),
        },
        None => {
            let out: Vec<Button> = Vec::new();
            proof {
                assert(buttons_view(out@) =~= Seq::<ButtonV>::empty());
            }
            Ok(out)
        },
    }
}

/// A `thumbnails`-style array field: absent means empty.
pub open spec fn thumbnails_arr_field(p: Seq<(Seq<char>, JsonVal)>, key: Seq<char>) -> Option<
    Seq<ThumbNailV>,
> {
    match obj_lookup(p, key) {
        None => Some(Seq::empty()),
        Some(JsonVal::Arr(a)) => crate::basics::spec_dec_thumbnails(a),
        Some(_) => None,
    }
}

fn get_thumbnails_arr(pairs: &Vec<(String, JsonValue)>, key: &str) -> (r: Result<
    Vec<ThumbNail>,
    DecodeError,
>)
    ensures
        match r {
            Ok(ts) => thumbnails_arr_field(pairs_view(pairs@), key@) == Some(
                crate::basics::thumbnails_view(ts@),
            ),
            Err(_) => thumbnails_arr_field(pairs_view(pairs@), key@) is None,
        },
{
    match obj_get(pairs, key) {
        Some(v) => match v {
            JsonValue::Arr(a) => crate::basics::decode_thumbnails(a),
            _ => Err(DecodeError::WrongType),
        },
        None => {
            let out: Vec<ThumbNail> = Vec::new();
            proof {
                assert(crate::basics::thumbnails_view(out@) =~= Seq::<ThumbNailV>::empty());
            }
            Ok(out)
        },
    }
}

/// A required nested thumbnail field.
pub open spec fn req_thumbnail_field(p: Seq<(Seq<char>, JsonVal)>, key: Seq<char>) -> Option<
    ThumbNailV,
> {
    match obj_lookup(p, key) {
        Some(v) => spec_dec_thumbnail(v),
        None => None,
    }
}

pub fn get_req_thumbnail(pairs: &Vec<(String, JsonValue)>, key: &str) -> (r: Result<
    ThumbNail,
    DecodeError,
>)
    ensures
        match r {
            Ok(t) => req_thumbnail_field(pairs_view(pairs@), key@) == Some(t@),
            Err(_) => req_thumbnail_field(pairs_view(pairs@), key@) is None,
        },
{
    match obj_get(pairs, key) {
        Some(v) => ThumbNail::decode(v),
        None => Err(DecodeError::MissingField),
    }
}

/// A required array of item rows.
pub open spec fn item_rows_req_field(p: Seq<(Seq<char>, JsonVal)>, key: Seq<char>) -> Option<
    Seq<ItemListV>,
> {
    match obj_lookup(p, key) {
        Some(JsonVal::Arr(a)) => spec_dec_item_rows(a),
        _ => None,
    }
}

fn get_item_rows_req(pairs: &Vec<(String, JsonValue)>, key: &str) -> (r: Result<
    Vec<ItemList>,
    DecodeError,
>)
    ensures
        match r {
            Ok(xs) => item_rows_req_field(pairs_view(pairs@), key@) == Some(item_rows_view(xs@)),
            Err(_) => item_rows_req_field(pairs_view(pairs@), key@) is None,
        },
{
    match obj_get(pairs, key) {
        Some(v) => match v {
            JsonValue::Arr(a) => decode_item_rows(a),
            _ => Err(DecodeError::WrongType),
        },
        None => Err(DecodeError::MissingField),
    }
}

fn opt_thumbnail_push(pairs: &mut Vec<(String, JsonValue)>, key: &str, v: &Option<ThumbNail>)
    ensures
        pairs_view(final(pairs)@) == pairs_view(old(pairs)@) + opt_val_entry(
            key@,
            enc_opt_thumbnail(opt_thumbnail_view(*v)),
        ),
{
    match v {
        Some(t) => {
            obj_push(pairs, key, t.encode());
            proof {
                assert(pairs_view(pairs@) =~= pairs_view(old(pairs)@) + opt_val_entry(
                    key@,
                    enc_opt_thumbnail(opt_thumbnail_view(*v)),
                ));
            }
        },
        None => {
            proof {
                assert(pairs_view(pairs@) =~= pairs_view(old(pairs)@) + opt_val_entry(
                    key@,
                    enc_opt_thumbnail(opt_thumbnail_view(*v)),
                ));
            }
        },
    }
}

fn opt_head_push(pairs: &mut Vec<(String, JsonValue)>, key: &str, v: &Option<Head>)
    ensures
        pairs_view(final(pairs)@) == pairs_view(old(pairs)@) + opt_val_entry(
            key@,
            enc_opt_head(opt_head_view(*v)),
        ),
{
    match v {
        Some(h) => {
            obj_push(pairs, key, h.encode());
            proof {
                assert(pairs_view(pairs@) =~= pairs_view(old(pairs)@) + opt_val_entry(
                    key@,
                    enc_opt_head(opt_head_view(*v)),
                ));
            }
        },
        None => {
            proof {
                assert(pairs_view(pairs@) =~= pairs_view(old(pairs)@) + opt_val_entry(
                    key@,
                    enc_opt_head(opt_head_view(*v)),
                ));
            }
        },
    }
}

fn opt_image_title_push(pairs: &mut Vec<(String, JsonValue)>, key: &str, v: &Option<ImageTitle>)
    ensures
        pairs_view(final(pairs)@) == pairs_view(old(pairs)@) + opt_val_entry(
            key@,
            enc_opt_image_title(opt_image_title_view(*v)),
        ),
{
    match v {
        Some(it) => {
            obj_push(pairs, key, it.encode());
            proof {
                assert(pairs_view(pairs@) =~= pairs_view(old(pairs)@) + opt_val_entry(
                    key@,
                    enc_opt_image_title(opt_image_title_view(*v)),
                ));
            }
        },
        None => {
            proof {
                assert(pairs_view(pairs@) =~= pairs_view(old(pairs)@) + opt_val_entry(
                    key@,
                    enc_opt_image_title(opt_image_title_view(*v)),
                ));
            }
        },
    }
}

fn opt_item_summary_push(
    pairs: &mut Vec<(String, JsonValue)>,
    key: &str,
    v: &Option<ItemListSummary>,
)
    ensures
        pairs_view(final(pairs)@) == pairs_view(old(pairs)@) + opt_val_entry(
            key@,
            enc_opt_item_summary(opt_item_summary_view(*v)),
        ),
{
    match v {
        Some(su) => {
            obj_push(pairs, key, su.encode());
            proof {
                assert(pairs_view(pairs@) =~= pairs_view(old(pairs)@) + opt_val_entry(
                    key@,
                    enc_opt_item_summary(opt_item_summary_view(*v)),
                ));
            }
        },
        None => {
            proof {
                assert(pairs_view(pairs@) =~= pairs_view(old(pairs)@) + opt_val_entry(
                    key@,
                    enc_opt_item_summary(opt_item_summary_view(*v)),
                ));
            }
        },
    }
}

/// The content of a basic card: optional title and description, a required
/// thumbnail, and buttons.
#[derive(Debug)]
pub struct BasicCardContent {
    pub title: Option<String>,
    pub description: Option<String>,
    pub thumbnail: ThumbNail,
    pub buttons: Vec<Button>,
}

/// Model of a basic card's content.
#[verifier::ext_equal]
pub struct BasicCardContentV {
    pub title: Option<Seq<char>>,
    pub description: Option<Seq<char>>,
    pub thumbnail: ThumbNailV,
    pub buttons: Seq<ButtonV>,
}

impl View for BasicCardContent {
    type V = BasicCardContentV;

    open spec fn view(&self) -> BasicCardContentV {
        BasicCardContentV {
            title: opt_view(self.title),
            description: opt_view(self.description),
            thumbnail: self.thumbnail@,
            buttons: buttons_view(self.buttons@),
        }
    }
}

impl BasicCardContentV {
    /// Every button is well-formed.
    pub open spec fn wf(self) -> bool {
        forall|i: int| 0 <= i < self.buttons.len() ==> (#[trigger] self.buttons[i]).wf()
    }
}

/// Encoding of a basic card's content.
pub open spec fn spec_enc_basic_content(c: BasicCardContentV) -> JsonVal {
    JsonVal::Obj(
        opt_str_entry("title"@, c.title) + opt_str_entry("description"@, c.description) + seq![
            ("thumbnail"@, spec_enc_thumbnail(c.thumbnail)),
        ] + nonempty_arr_entry("buttons"@, spec_enc_buttons(c.buttons)),
    )
}

/// The keys a basic card object may hold.
pub open spec fn basic_content_allowed_keys() -> Seq<Seq<char>> {
    seq!["title"@, "description"@, "thumbnail"@, "buttons"@]
}

/// Decoding of a basic card object.
pub open spec fn spec_dec_basic_content(v: JsonVal) -> Option<BasicCardContentV> {
    match v {
        JsonVal::Obj(p) => if !keys_unique(p) || !keys_within(p, basic_content_allowed_keys()) {
            None
        } else {
            match (opt_str_field(p, "title"@), opt_str_field(p, "description"@),
            req_thumbnail_field(p, "thumbnail"@), buttons_arr_field(p, "buttons"@)) {
                (Some(t), Some(d), Some(th), Some(bs)) => Some(
                    BasicCardContentV { title: t, description: d, thumbnail: th, buttons: bs },
                ),
                _ => None,
            }
        },
        _ => None,
    }
}

impl BasicCardContent {
    /// Encodes this content as its wire object.
    pub fn encode(&self) -> (r: JsonValue)
        ensures
            r@ == spec_enc_basic_content(self@),
    {
        let mut o: Vec<(String, JsonValue)> = Vec::new();
        if let Some(t) = &self.title {
            obj_push(&mut o, "title", JsonValue::Str(t.clone()));
        }
        if let Some(d) = &self.description {
            obj_push(&mut o, "description", JsonValue::Str(d.clone()));
        }
        obj_push(&mut o, "thumbnail", self.thumbnail.encode());
        if self.buttons.len() > 0 {
            obj_push(&mut o, "buttons", JsonValue::Arr(encode_buttons(&self.buttons)));
        }
        let r = JsonValue::Obj(o);
        proof {
            assert(r@ matches JsonVal::Obj(p) && p =~= (opt_str_entry("title"@, self@.title)
                + opt_str_entry("description"@, self@.description) + seq![
                ("thumbnail"@, spec_enc_thumbnail(self@.thumbnail)),
            ] + nonempty_arr_entry("buttons"@, spec_enc_buttons(self@.buttons))));
        }
        r
    }

    /// Decodes a basic card's content from its wire object.
    pub fn decode(v: &JsonValue) -> (r: Result<BasicCardContent, DecodeError>)
        ensures
            match r {
                Ok(c) => spec_dec_basic_content(v@) == Some(c@),
                Err(_) => spec_dec_basic_content(v@) is None,
            },
    {
        let pairs = match v {
            JsonValue::Obj(pairs) => pairs,
            _ => { return Err(DecodeError::WrongType); },
        };
        let allowed: Vec<&str> = vec!["title", "description", "thumbnail", "buttons"];
        proof {
            assert(strs_view(allowed@) =~= basic_content_allowed_keys());
        }
        if !keys_ok(pairs, &allowed) {
            return Err(DecodeError::UnknownField);
        }
        let title = match get_opt_str(pairs, "title") {
            Ok(t) => t,
            Err(e) => { return Err(e); },
        };
        let description = match get_opt_str(pairs, "description") {
            Ok(d) => d,
            Err(e) => { return Err(e); },
        };
        let thumbnail = match get_req_thumbnail(pairs, "thumbnail") {
            Ok(th) => th,
            Err(e) => { return Err(e); },
        };
        let buttons = match get_buttons_arr(pairs, "buttons") {
            Ok(bs) => bs,
            Err(e) => { return Err(e); },
        };
        Ok(BasicCardContent { title, description, thumbnail, buttons })
    }
}

/// The basic card keys are pairwise distinct.
pub proof fn lemma_basic_content_keys()
    ensures
        "title"@ != "description"@,
        "title"@ != "thumbnail"@,
        "title"@ != "buttons"@,
        "description"@ != "thumbnail"@,
        "description"@ != "buttons"@,
        "thumbnail"@ != "buttons"@,
{
    reveal_strlit("title");
    reveal_strlit("description");
    reveal_strlit("thumbnail");
    reveal_strlit("buttons");
    assert("title"@.len() == 5 && "description"@.len() == 11 && "thumbnail"@.len() == 9
        && "buttons"@.len() == 7);
}

/// Round trip: decoding an encoded basic card gives it back, for every
/// well-formed content.
pub proof fn lemma_basic_content_round_trip(c: BasicCardContentV)
    requires
        c.wf(),
    ensures
        spec_dec_basic_content(spec_enc_basic_content(c)) == Some(c),
{
    lemma_basic_content_keys();
    lemma_thumbnail_round_trip(c.thumbnail);
    lemma_buttons_round_trip(c.buttons);
    let pa = opt_str_entry("title"@, c.title);
    let pb = opt_str_entry("description"@, c.description);
    let pc = seq![("thumbnail"@, spec_enc_thumbnail(c.thumbnail))];
    let pd = nonempty_arr_entry("buttons"@, spec_enc_buttons(c.buttons));
    let p = pa + pb + pc + pd;
    lemma_opt_str_entry("title"@, c.title);
    lemma_opt_str_entry("description"@, c.description);
    lemma_lookup_single("thumbnail"@, spec_enc_thumbnail(c.thumbnail));
    lemma_nonempty_arr_entry("buttons"@, spec_enc_buttons(c.buttons));
    lemma_lookup_concat(pa, pb);
    lemma_lookup_concat(pa + pb, pc);
    lemma_lookup_concat(pa + pb + pc, pd);
    lemma_keys_unique_concat(pa, pb);
    lemma_keys_unique_concat(pa + pb, pc);
    lemma_keys_unique_concat(pa + pb + pc, pd);
    let allowed = basic_content_allowed_keys();
    assert(allowed.contains("title"@) && allowed.contains("description"@) && allowed.contains(
        "thumbnail"@,
    ) && allowed.contains("buttons"@)) by {
        assert(allowed[0] == "title"@ && allowed[1] == "description"@ && allowed[2] == "thumbnail"@
            && allowed[3] == "buttons"@);
    }
    assert(keys_within(pa, allowed));
    assert(keys_within(pb, allowed));
    assert(keys_within(pc, allowed));
    assert(keys_within(pd, allowed));
    lemma_keys_within_concat(pa, pb, allowed);
    lemma_keys_within_concat(pa + pb, pc, allowed);
    lemma_keys_within_concat(pa + pb + pc, pd, allowed);
    assert(spec_enc_buttons(c.buttons).len() == c.buttons.len());
    assert(spec_dec_basic_content(spec_enc_basic_content(c)) == Some(c));
}

/// The content of a commerce card: description, price and currency, with
/// optional discount figures, thumbnails and buttons.
#[derive(Debug)]
pub struct CommerceCardContent {
    pub description: String,
    pub price: i32,
    pub currency: String,
    pub discount: Option<i32>,
    pub discount_rate: Option<i32>,
    pub discounted_price: Option<i32>,
    pub thumbnails: Vec<ThumbNail>,
    pub buttons: Vec<Button>,
}

/// Model of a commerce card's content.
#[verifier::ext_equal]
pub struct CommerceCardContentV {
    pub description: Seq<char>,
    pub price: i32,
    pub currency: Seq<char>,
    pub discount: Option<i32>,
    pub discount_rate: Option<i32>,
    pub discounted_price: Option<i32>,
    pub thumbnails: Seq<ThumbNailV>,
    pub buttons: Seq<ButtonV>,
}

impl View for CommerceCardContent {
    type V = CommerceCardContentV;

    open spec fn view(&self) -> CommerceCardContentV {
        CommerceCardContentV {
            description: self.description@,
            price: self.price,
            currency: self.currency@,
            discount: self.discount,
            discount_rate: self.discount_rate,
            discounted_price: self.discounted_price,
            thumbnails: crate::basics::thumbnails_view(self.thumbnails@),
            buttons: buttons_view(self.buttons@),
        }
    }
}

impl CommerceCardContentV {
    /// Every button is well-formed.
    pub open spec fn wf(self) -> bool {
        forall|i: int| 0 <= i < self.buttons.len() ==> (#[trigger] self.buttons[i]).wf()
    }
}

/// Encoding of a commerce card's content.
pub open spec fn spec_enc_commerce_content(c: CommerceCardContentV) -> JsonVal {
    JsonVal::Obj(
        seq![
            ("description"@, JsonVal::Str(c.description)),
            ("price"@, JsonVal::Int(c.price as int)),
            ("currency"@, JsonVal::Str(c.currency)),
        ] + opt_i32_entry("discount"@, c.discount) + opt_i32_entry("discountRate"@, c.discount_rate)
            + opt_i32_entry("discountedPrice"@, c.discounted_price) + nonempty_arr_entry(
            "thumbnails"@,
            crate::basics::spec_enc_thumbnails(c.thumbnails),
        ) + nonempty_arr_entry("buttons"@, spec_enc_buttons(c.buttons)),
    )
}

/// The keys a commerce card object may hold.
pub open spec fn commerce_content_allowed_keys() -> Seq<Seq<char>> {
    seq![
        "description"@,
        "price"@,
        "currency"@,
        "discount"@,
        "discountRate"@,
        "discountedPrice"@,
        "thumbnails"@,
        "buttons"@,
    ]
}

/// Decoding of a commerce card object.
pub open spec fn spec_dec_commerce_content(v: JsonVal) -> Option<CommerceCardContentV> {
    match v {
        JsonVal::Obj(p) => if !keys_unique(p) || !keys_within(p, commerce_content_allowed_keys()) {
            None
        } else {
            match (req_str_field(p, "description"@), req_i32_field(p, "price"@), req_str_field(
                p,
                "currency"@,
            ), opt_i32_field(p, "discount"@), opt_i32_field(p, "discountRate"@), opt_i32_field(
                p,
                "discountedPrice"@,
            ), thumbnails_arr_field(p, "thumbnails"@), buttons_arr_field(p, "buttons"@)) {
                (
                    Some(d),
                    Some(pr),
                    Some(cu),
                    Some(di),
                    Some(dr),
                    Some(dp),
                    Some(ts),
                    Some(bs),
                ) => Some(
                    CommerceCardContentV {
                        description: d,
                        price: pr,
                        currency: cu,
                        discount: di,
                        discount_rate: dr,
                        discounted_price: dp,
                        thumbnails: ts,
                        buttons: bs,
                    },
                ),
                _ => None,
            }
        },
        _ => None,
    }
}

impl CommerceCardContent {
    /// Encodes this content as its wire object.
    pub fn encode(&self) -> (r: JsonValue)
        ensures
            r@ == spec_enc_commerce_content(self@),
    {
        let mut o: Vec<(String, JsonValue)> = Vec::new();
        obj_push(&mut o, "description", JsonValue::Str(self.description.clone()));
        obj_push(&mut o, "price", JsonValue::Int(self.price as i64));
        obj_push(&mut o, "currency", JsonValue::Str(self.currency.clone()));
        if let Some(d) = &self.discount {
            obj_push(&mut o, "discount", JsonValue::Int(*d as i64));
        }
        if let Some(dr) = &self.discount_rate {
            obj_push(&mut o, "discountRate", JsonValue::Int(*dr as i64));
        }
        if let Some(dp) = &self.discounted_price {
            obj_push(&mut o, "discountedPrice", JsonValue::Int(*dp as i64));
        }
        if self.thumbnails.len() > 0 {
            obj_push(
                &mut o,
                "thumbnails",
                JsonValue::Arr(crate::basics::encode_thumbnails(&self.thumbnails)),
            );
        }
        if self.buttons.len() > 0 {
            obj_push(&mut o, "buttons", JsonValue::Arr(encode_buttons(&self.buttons)));
        }
        let r = JsonValue::Obj(o);
        proof {
            assert(r@ matches JsonVal::Obj(p) && p =~= (seq![
                ("description"@, JsonVal::Str(self@.description)),
                ("price"@, JsonVal::Int(self@.price as int)),
                ("currency"@, JsonVal::Str(self@.currency)),
            ] + opt_i32_entry("discount"@, self@.discount) + opt_i32_entry(
                "discountRate"@,
                self@.discount_rate,
            ) + opt_i32_entry("discountedPrice"@, self@.discounted_price) + nonempty_arr_entry(
                "thumbnails"@,
                crate::basics::spec_enc_thumbnails(self@.thumbnails),
            ) + nonempty_arr_entry("buttons"@, spec_enc_buttons(self@.buttons))));
        }
        r
    }

    /// Decodes a commerce card's content from its wire object.
    pub fn decode(v: &JsonValue) -> (r: Result<CommerceCardContent, DecodeError>)
        ensures
            match r {
                Ok(c) => spec_dec_commerce_content(v@) == Some(c@),
                Err(_) => spec_dec_commerce_content(v@) is None,
            },
    {
        let pairs = match v {
            JsonValue::Obj(pairs) => pairs,
            _ => { return Err(DecodeError::WrongType); },
        };
        let allowed: Vec<&str> = vec![
            "description",
            "price",
            "currency",
            "discount",
            "discountRate",
            "discountedPrice",
            "thumbnails",
            "buttons",
        ];
        proof {
            assert(strs_view(allowed@) =~= commerce_content_allowed_keys());
        }
        if !keys_ok(pairs, &allowed) {
            return Err(DecodeError::UnknownField);
        }
        let description = match get_req_str(pairs, "description") {
            Ok(d) => d,
            Err(e) => { return Err(e); },
        };
        let price = match get_req_i32(pairs, "price") {
            Ok(p) => p,
            Err(e) => { return Err(e); },
        };
        let currency = match get_req_str(pairs, "currency") {
            Ok(cu) => cu,
            Err(e) => { return Err(e); },
        };
        let discount = match get_opt_i32(pairs, "discount") {
            Ok(d) => d,
            Err(e) => { return Err(e); },
        };
        let discount_rate = match get_opt_i32(pairs, "discountRate") {
            Ok(dr) => dr,
            Err(e) => { return Err(e); },
        };
        let discounted_price = match get_opt_i32(pairs, "discountedPrice") {
            Ok(dp) => dp,
            Err(e) => { return Err(e); },
        };
        let thumbnails = match get_thumbnails_arr(pairs, "thumbnails") {
            Ok(ts) => ts,
            Err(e) => { return Err(e); },
        };
        let buttons = match get_buttons_arr(pairs, "buttons") {
            Ok(bs) => bs,
            Err(e) => { return Err(e); },
        };
        Ok(CommerceCardContent {
            description,
            price,
            currency,
            discount,
            discount_rate,
            discounted_price,
            thumbnails,
            buttons,
        })
    }
}

/// The commerce card keys are pairwise distinct.
pub proof fn lemma_commerce_content_keys()
    ensures
        "description"@ != "price"@,
        "description"@ != "currency"@,
        "description"@ != "discount"@,
        "description"@ != "discountRate"@,
        "description"@ != "discountedPrice"@,
        "description"@ != "thumbnails"@,
        "description"@ != "buttons"@,
        "price"@ != "currency"@,
        "price"@ != "discount"@,
        "price"@ != "discountRate"@,
        "price"@ != "discountedPrice"@,
        "price"@ != "thumbnails"@,
        "price"@ != "buttons"@,
        "currency"@ != "discount"@,
        "currency"@ != "discountRate"@,
        "currency"@ != "discountedPrice"@,
        "currency"@ != "thumbnails"@,
        "currency"@ != "buttons"@,
        "discount"@ != "discountRate"@,
        "discount"@ != "discountedPrice"@,
        "discount"@ != "thumbnails"@,
        "discount"@ != "buttons"@,
        "discountRate"@ != "discountedPrice"@,
        "discountRate"@ != "thumbnails"@,
        "discountRate"@ != "buttons"@,
        "discountedPrice"@ != "thumbnails"@,
        "discountedPrice"@ != "buttons"@,
        "thumbnails"@ != "buttons"@,
{
    reveal_strlit("description");
    reveal_strlit("price");
    reveal_strlit("currency");
    reveal_strlit("discount");
    reveal_strlit("discountRate");
    reveal_strlit("discountedPrice");
    reveal_strlit("thumbnails");
    reveal_strlit("buttons");
    assert("description"@.len() == 11 && "price"@.len() == 5 && "currency"@.len() == 8
        && "discount"@.len() == 8 && "discountRate"@.len() == 12 && "discountedPrice"@.len() == 15
        && "thumbnails"@.len() == 10 && "buttons"@.len() == 7);
    assert("currency"@[0] == 'c' && "discount"@[0] == 'd');
}

/// Round trip: decoding an encoded commerce card gives it back, for every
/// well-formed content.
pub proof fn lemma_commerce_content_round_trip(c: CommerceCardContentV)
    requires
        c.wf(),
    ensures
        spec_dec_commerce_content(spec_enc_commerce_content(c)) == Some(c),
{
    lemma_commerce_content_keys();
    crate::basics::lemma_thumbnails_round_trip(c.thumbnails);
    lemma_buttons_round_trip(c.buttons);
    let pa = seq![("description"@, JsonVal::Str(c.description))];
    let pb = seq![("price"@, JsonVal::Int(c.price as int))];
    let pc = seq![("currency"@, JsonVal::Str(c.currency))];
    let p0 = seq![
        ("description"@, JsonVal::Str(c.description)),
        ("price"@, JsonVal::Int(c.price as int)),
        ("currency"@, JsonVal::Str(c.currency)),
    ];
    assert(p0 =~= pa + pb + pc);
    let pd = opt_i32_entry("discount"@, c.discount);
    let pe = opt_i32_entry("discountRate"@, c.discount_rate);
    let pf = opt_i32_entry("discountedPrice"@, c.discounted_price);
    let pg = nonempty_arr_entry("thumbnails"@, crate::basics::spec_enc_thumbnails(c.thumbnails));
    let ph = nonempty_arr_entry("buttons"@, spec_enc_buttons(c.buttons));
    let p = pa + pb + pc + pd + pe + pf + pg + ph;
    assert(p0 + pd + pe + pf + pg + ph =~= p);
    lemma_lookup_single("description"@, JsonVal::Str(c.description));
    lemma_lookup_single("price"@, JsonVal::Int(c.price as int));
    lemma_lookup_single("currency"@, JsonVal::Str(c.currency));
    lemma_opt_i32_entry("discount"@, c.discount);
    lemma_opt_i32_entry("discountRate"@, c.discount_rate);
    lemma_opt_i32_entry("discountedPrice"@, c.discounted_price);
    lemma_nonempty_arr_entry("thumbnails"@, crate::basics::spec_enc_thumbnails(c.thumbnails));
    lemma_nonempty_arr_entry("buttons"@, spec_enc_buttons(c.buttons));
    lemma_lookup_concat(pa, pb);
    lemma_lookup_concat(pa + pb, pc);
    lemma_lookup_concat(pa + pb + pc, pd);
    lemma_lookup_concat(pa + pb + pc + pd, pe);
    lemma_lookup_concat(pa + pb + pc + pd + pe, pf);
    lemma_lookup_concat(pa + pb + pc + pd + pe + pf, pg);
    lemma_lookup_concat(pa + pb + pc + pd + pe + pf + pg, ph);
    lemma_keys_unique_concat(pa, pb);
    lemma_keys_unique_concat(pa + pb, pc);
    lemma_keys_unique_concat(pa + pb + pc, pd);
    lemma_keys_unique_concat(pa + pb + pc + pd, pe);
    lemma_keys_unique_concat(pa + pb + pc + pd + pe, pf);
    lemma_keys_unique_concat(pa + pb + pc + pd + pe + pf, pg);
    lemma_keys_unique_concat(pa + pb + pc + pd + pe + pf + pg, ph);
    let allowed = commerce_content_allowed_keys();
    assert(allowed.contains("description"@) && allowed.contains("price"@) && allowed.contains(
        "currency"@,
    ) && allowed.contains("discount"@) && allowed.contains("discountRate"@) && allowed.contains(
        "discountedPrice"@,
    ) && allowed.contains("thumbnails"@) && allowed.contains("buttons"@)) by {
        assert(allowed[0] == "description"@ && allowed[1] == "price"@ && allowed[2] == "currency"@
            && allowed[3] == "discount"@ && allowed[4] == "discountRate"@ && allowed[5]
            == "discountedPrice"@ && allowed[6] == "thumbnails"@ && allowed[7] == "buttons"@);
    }
    assert(keys_within(pa, allowed));
    assert(keys_within(pb, allowed));
    assert(keys_within(pc, allowed));
    assert(keys_within(pd, allowed));
    assert(keys_within(pe, allowed));
    assert(keys_within(pf, allowed));
    assert(keys_within(pg, allowed));
    assert(keys_within(ph, allowed));
    lemma_keys_within_concat(pa, pb, allowed);
    lemma_keys_within_concat(pa + pb, pc, allowed);
    lemma_keys_within_concat(pa + pb + pc, pd, allowed);
    lemma_keys_within_concat(pa + pb + pc + pd, pe, allowed);
    lemma_keys_within_concat(pa + pb + pc + pd + pe, pf, allowed);
    lemma_keys_within_concat(pa + pb + pc + pd + pe + pf, pg, allowed);
    lemma_keys_within_concat(pa + pb + pc + pd + pe + pf + pg, ph, allowed);
    assert(crate::basics::spec_enc_thumbnails(c.thumbnails).len() == c.thumbnails.len());
    assert(spec_enc_buttons(c.buttons).len() == c.buttons.len());
    assert(spec_dec_commerce_content(spec_enc_commerce_content(c)) == Some(c));
}

/// The content of an item card: a list of item rows with optional heading
/// blocks, summary, titles and buttons.
#[derive(Debug)]
pub struct ItemCardContent {
    pub thumbnail: Option<ThumbNail>,
    pub head: Option<Head>,
    pub image_title: Option<ImageTitle>,
    pub item_list: Vec<ItemList>,
    pub item_list_alignment: Option<String>,
    pub item_list_summary: Option<ItemListSummary>,
    pub title: Option<String>,
    pub description: Option<String>,
    pub buttons: Vec<Button>,
    pub button_layout: Option<String>,
}

/// Model of an item card's content.
#[verifier::ext_equal]
pub struct ItemCardContentV {
    pub thumbnail: Option<ThumbNailV>,
    pub head: Option<HeadV>,
    pub image_title: Option<ImageTitleV>,
    pub item_list: Seq<ItemListV>,
    pub item_list_alignment: Option<Seq<char>>,
    pub item_list_summary: Option<ItemListSummaryV>,
    pub title: Option<Seq<char>>,
    pub description: Option<Seq<char>>,
    pub buttons: Seq<ButtonV>,
    pub button_layout: Option<Seq<char>>,
}

impl View for ItemCardContent {
    type V = ItemCardContentV;

    open spec fn view(&self) -> ItemCardContentV {
        ItemCardContentV {
            thumbnail: opt_thumbnail_view(self.thumbnail),
            head: opt_head_view(self.head),
            image_title: opt_image_title_view(self.image_title),
            item_list: item_rows_view(self.item_list@),
            item_list_alignment: opt_view(self.item_list_alignment),
            item_list_summary: opt_item_summary_view(self.item_list_summary),
            title: opt_view(self.title),
            description: opt_view(self.description),
            buttons: buttons_view(self.buttons@),
            button_layout: opt_view(self.button_layout),
        }
    }
}

impl ItemCardContentV {
    /// Every button is well-formed.
    pub open spec fn wf(self) -> bool {
        forall|i: int| 0 <= i < self.buttons.len() ==> (#[trigger] self.buttons[i]).wf()
    }
}

/// Encoding of an item card's content. The `itemList` array is always
/// emitted, even when empty.
pub open spec fn spec_enc_item_content(c: ItemCardContentV) -> JsonVal {
    JsonVal::Obj(
        opt_val_entry("thumbnail"@, enc_opt_thumbnail(c.thumbnail)) + opt_val_entry(
            "head"@,
            enc_opt_head(c.head),
        ) + opt_val_entry("imageTitle"@, enc_opt_image_title(c.image_title)) + seq![
            ("itemList"@, JsonVal::Arr(spec_enc_item_rows(c.item_list))),
        ] + opt_str_entry("itemListAlignment"@, c.item_list_alignment) + opt_val_entry(
            "itemListSummary"@,
            enc_opt_item_summary(c.item_list_summary),
        ) + opt_str_entry("title"@, c.title) + opt_str_entry("description"@, c.description)
            + nonempty_arr_entry("buttons"@, spec_enc_buttons(c.buttons)) + opt_str_entry(
            "buttonLayout"@,
            c.button_layout,
        ),
    )
}

/// The keys an item card object may hold.
pub open spec fn item_content_allowed_keys() -> Seq<Seq<char>> {
    seq![
        "thumbnail"@,
        "head"@,
        "imageTitle"@,
        "itemList"@,
        "itemListAlignment"@,
        "itemListSummary"@,
        "title"@,
        "description"@,
        "buttons"@,
        "buttonLayout"@,
    ]
}

/// Decoding of an item card object.
pub open spec fn spec_dec_item_content(v: JsonVal) -> Option<ItemCardContentV> {
    match v {
        JsonVal::Obj(p) => if !keys_unique(p) || !keys_within(p, item_content_allowed_keys()) {
            None
        } else {
            match (opt_thumbnail_field(p, "thumbnail"@), opt_head_field(p, "head"@),
            opt_image_title_field(p, "imageTitle"@), item_rows_req_field(p, "itemList"@),
            opt_str_field(p, "itemListAlignment"@), opt_item_summary_field(p, "itemListSummary"@),
            opt_str_field(p, "title"@), opt_str_field(p, "description"@), buttons_arr_field(
                p,
                "buttons"@,
            ), opt_str_field(p, "buttonLayout"@)) {
                (
                    Some(th),
                    Some(hd),
                    Some(it),
                    Some(rows),
                    Some(al),
                    Some(su),
                    Some(ti),
                    Some(de),
                    Some(bs),
                    Some(bl),
                ) => Some(
                    ItemCardContentV {
                        thumbnail: th,
                        head: hd,
                        image_title: it,
                        item_list: rows,
                        item_list_alignment: al,
                        item_list_summary: su,
                        title: ti,
                        description: de,
                        buttons: bs,
                        button_layout: bl,
                    },
                ),
                _ => None,
            }
        },
        _ => None,
    }
}

impl ItemCardContent {
    /// Encodes this content as its wire object.
    #[verifier::rlimit(100)]
    #[verifier::spinoff_prover]
    pub fn encode(&self) -> (r: JsonValue)
        ensures
            r@ == spec_enc_item_content(self@),
    {
        let mut o: Vec<(String, JsonValue)> = Vec::new();
        opt_thumbnail_push(&mut o, "thumbnail", &self.thumbnail);
        opt_head_push(&mut o, "head", &self.head);
        opt_image_title_push(&mut o, "imageTitle", &self.image_title);
        obj_push(&mut o, "itemList", JsonValue::Arr(encode_item_rows(&self.item_list)));
        crate::json::opt_str_push(&mut o, "itemListAlignment", &self.item_list_alignment);
        opt_item_summary_push(&mut o, "itemListSummary", &self.item_list_summary);
        crate::json::opt_str_push(&mut o, "title", &self.title);
        crate::json::opt_str_push(&mut o, "description", &self.description);
        crate::json::nonempty_arr_push(&mut o, "buttons", encode_buttons(&self.buttons));
        crate::json::opt_str_push(&mut o, "buttonLayout", &self.button_layout);
        let r = JsonValue::Obj(o);
        proof {
            assert(pairs_view(o@) =~= (opt_val_entry(
                "thumbnail"@,
                enc_opt_thumbnail(self@.thumbnail),
            ) + opt_val_entry("head"@, enc_opt_head(self@.head)) + opt_val_entry(
                "imageTitle"@,
                enc_opt_image_title(self@.image_title),
            ) + seq![("itemList"@, JsonVal::Arr(spec_enc_item_rows(self@.item_list)))]
                + opt_str_entry("itemListAlignment"@, self@.item_list_alignment) + opt_val_entry(
                "itemListSummary"@,
                enc_opt_item_summary(self@.item_list_summary),
            ) + opt_str_entry("title"@, self@.title) + opt_str_entry(
                "description"@,
                self@.description,
            ) + nonempty_arr_entry("buttons"@, spec_enc_buttons(self@.buttons)) + opt_str_entry(
                "buttonLayout"@,
                self@.button_layout,
            )));
        }
        r
    }

    /// Decodes an item card's content from its wire object.
    pub fn decode(v: &JsonValue) -> (r: Result<ItemCardContent, DecodeError>)
        ensures
            match r {
                Ok(c) => spec_dec_item_content(v@) == Some(c@),
                Err(_) => spec_dec_item_content(v@) is None,
            },
    {
        let pairs = match v {
            JsonValue::Obj(pairs) => pairs,
            _ => { return Err(DecodeError::WrongType); },
        };
        let allowed: Vec<&str> = vec![
            "thumbnail",
            "head",
            "imageTitle",
            "itemList",
            "itemListAlignment",
            "itemListSummary",
            "title",
            "description",
            "buttons",
            "buttonLayout",
        ];
        proof {
            assert(strs_view(allowed@) =~= item_content_allowed_keys());
        }
        if !keys_ok(pairs, &allowed) {
            return Err(DecodeError::UnknownField);
        }
        let thumbnail = match get_opt_thumbnail(pairs, "thumbnail") {
            Ok(th) => th,
            Err(e) => { return Err(e); },
        };
        let head = match get_opt_head(pairs, "head") {
            Ok(hd) => hd,
            Err(e) => { return Err(e); },
        };
        let image_title = match get_opt_image_title(pairs, "imageTitle") {
            Ok(it) => it,
            Err(e) => { return Err(e); },
        };
        let item_list = match get_item_rows_req(pairs, "itemList") {
            Ok(rows) => rows,
            Err(e) => { return Err(e); },
        };
        let item_list_alignment = match get_opt_str(pairs, "itemListAlignment") {
            Ok(al) => al,
            Err(e) => { return Err(e); },
        };
        let item_list_summary = match get_opt_item_summary(pairs, "itemListSummary") {
            Ok(su) => su,
            Err(e) => { return Err(e); },
        };
        let title = match get_opt_str(pairs, "title") {
            Ok(ti) => ti,
            Err(e) => { return Err(e); },
        };
        let description = match get_opt_str(pairs, "description") {
            Ok(de) => de,
            Err(e) => { return Err(e); },
        };
        let buttons = match get_buttons_arr(pairs, "buttons") {
            Ok(bs) => bs,
            Err(e) => { return Err(e); },
        };
        let button_layout = match get_opt_str(pairs, "buttonLayout") {
            Ok(bl) => bl,
            Err(e) => { return Err(e); },
        };
        Ok(ItemCardContent {
            thumbnail,
            head,
            image_title,
            item_list,
            item_list_alignment,
            item_list_summary,
            title,
            description,
            buttons,
            button_layout,
        })
    }
}

/// The item card keys are pairwise distinct.
pub proof fn lemma_item_content_keys()
    ensures
        forall|i: int, j: int|
            0 <= i < j < item_content_allowed_keys().len() ==> item_content_allowed_keys()[i]
                != item_content_allowed_keys()[j],
{
    reveal_strlit("thumbnail");
    reveal_strlit("head");
    reveal_strlit("imageTitle");
    reveal_strlit("itemList");
    reveal_strlit("itemListAlignment");
    reveal_strlit("itemListSummary");
    reveal_strlit("title");
    reveal_strlit("description");
    reveal_strlit("buttons");
    reveal_strlit("buttonLayout");
    assert("thumbnail"@.len() == 9 && "head"@.len() == 4 && "imageTitle"@.len() == 10
        && "itemList"@.len() == 8 && "itemListAlignment"@.len() == 17 && "itemListSummary"@.len()
        == 15 && "title"@.len() == 5 && "description"@.len() == 11 && "buttons"@.len() == 7
        && "buttonLayout"@.len() == 12);
    assert forall|i: int, j: int|
        0 <= i < j < item_content_allowed_keys().len() implies item_content_allowed_keys()[i]
        != item_content_allowed_keys()[j] by {
        assert(item_content_allowed_keys()[i].len() != item_content_allowed_keys()[j].len());
    }
}

/// Round trip: decoding an encoded item card gives it back, for every
/// well-formed content.
#[verifier::rlimit(100)]
#[verifier::spinoff_prover]
pub proof fn lemma_item_content_round_trip(c: ItemCardContentV)
    requires
        c.wf(),
    ensures
        spec_dec_item_content(spec_enc_item_content(c)) == Some(c),
{
    lemma_item_content_keys();
    let allowed = item_content_allowed_keys();
    assert(allowed[0] == "thumbnail"@ && allowed[1] == "head"@ && allowed[2] == "imageTitle"@
        && allowed[3] == "itemList"@ && allowed[4] == "itemListAlignment"@ && allowed[5]
        == "itemListSummary"@ && allowed[6] == "title"@ && allowed[7] == "description"@
        && allowed[8] == "buttons"@ && allowed[9] == "buttonLayout"@);
    if let Some(th) = c.thumbnail {
        lemma_thumbnail_round_trip(th);
    }
    if let Some(hd) = c.head {
        lemma_head_round_trip(hd);
    }
    if let Some(it) = c.image_title {
        lemma_image_title_round_trip(it);
    }
    lemma_item_rows_round_trip(c.item_list);
    if let Some(su) = c.item_list_summary {
        lemma_item_summary_round_trip(su);
    }
    lemma_buttons_round_trip(c.buttons);
    let p0 = opt_val_entry("thumbnail"@, enc_opt_thumbnail(c.thumbnail));
    let p1 = opt_val_entry("head"@, enc_opt_head(c.head));
    let p2 = opt_val_entry("imageTitle"@, enc_opt_image_title(c.image_title));
    let p3 = seq![("itemList"@, JsonVal::Arr(spec_enc_item_rows(c.item_list)))];
    let p4 = opt_str_entry("itemListAlignment"@, c.item_list_alignment);
    let p5 = opt_val_entry("itemListSummary"@, enc_opt_item_summary(c.item_list_summary));
    let p6 = opt_str_entry("title"@, c.title);
    let p7 = opt_str_entry("description"@, c.description);
    let p8 = nonempty_arr_entry("buttons"@, spec_enc_buttons(c.buttons));
    let p9 = opt_str_entry("buttonLayout"@, c.button_layout);
    let p = p0 + p1 + p2 + p3 + p4 + p5 + p6 + p7 + p8 + p9;
    lemma_opt_val_entry("thumbnail"@, enc_opt_thumbnail(c.thumbnail));
    lemma_opt_val_entry("head"@, enc_opt_head(c.head));
    lemma_opt_val_entry("imageTitle"@, enc_opt_image_title(c.image_title));
    lemma_lookup_single("itemList"@, JsonVal::Arr(spec_enc_item_rows(c.item_list)));
    lemma_opt_str_entry("itemListAlignment"@, c.item_list_alignment);
    lemma_opt_val_entry("itemListSummary"@, enc_opt_item_summary(c.item_list_summary));
    lemma_opt_str_entry("title"@, c.title);
    lemma_opt_str_entry("description"@, c.description);
    lemma_nonempty_arr_entry("buttons"@, spec_enc_buttons(c.buttons));
    lemma_opt_str_entry("buttonLayout"@, c.button_layout);
    lemma_lookup_concat(p0, p1);
    lemma_lookup_concat(p0 + p1, p2);
    lemma_lookup_concat(p0 + p1 + p2, p3);
    lemma_lookup_concat(p0 + p1 + p2 + p3, p4);
    lemma_lookup_concat(p0 + p1 + p2 + p3 + p4, p5);
    lemma_lookup_concat(p0 + p1 + p2 + p3 + p4 + p5, p6);
    lemma_lookup_concat(p0 + p1 + p2 + p3 + p4 + p5 + p6, p7);
    lemma_lookup_concat(p0 + p1 + p2 + p3 + p4 + p5 + p6 + p7, p8);
    lemma_lookup_concat(p0 + p1 + p2 + p3 + p4 + p5 + p6 + p7 + p8, p9);
    lemma_keys_unique_concat(p0, p1);
    lemma_keys_unique_concat(p0 + p1, p2);
    lemma_keys_unique_concat(p0 + p1 + p2, p3);
    lemma_keys_unique_concat(p0 + p1 + p2 + p3, p4);
    lemma_keys_unique_concat(p0 + p1 + p2 + p3 + p4, p5);
    lemma_keys_unique_concat(p0 + p1 + p2 + p3 + p4 + p5, p6);
    lemma_keys_unique_concat(p0 + p1 + p2 + p3 + p4 + p5 + p6, p7);
    lemma_keys_unique_concat(p0 + p1 + p2 + p3 + p4 + p5 + p6 + p7, p8);
    lemma_keys_unique_concat(p0 + p1 + p2 + p3 + p4 + p5 + p6 + p7 + p8, p9);
    assert(allowed.contains("thumbnail"@) && allowed.contains("head"@) && allowed.contains(
        "imageTitle"@,
    ) && allowed.contains("itemList"@) && allowed.contains("itemListAlignment"@)
        && allowed.contains("itemListSummary"@) && allowed.contains("title"@) && allowed.contains(
        "description"@,
    ) && allowed.contains("buttons"@) && allowed.contains("buttonLayout"@));
    assert(keys_within(p0, allowed));
    assert(keys_within(p1, allowed));
    assert(keys_within(p2, allowed));
    assert(keys_within(p3, allowed));
    assert(keys_within(p4, allowed));
    assert(keys_within(p5, allowed));
    assert(keys_within(p6, allowed));
    assert(keys_within(p7, allowed));
    assert(keys_within(p8, allowed));
    assert(keys_within(p9, allowed));
    lemma_keys_within_concat(p0, p1, allowed);
    lemma_keys_within_concat(p0 + p1, p2, allowed);
    lemma_keys_within_concat(p0 + p1 + p2, p3, allowed);
    lemma_keys_within_concat(p0 + p1 + p2 + p3, p4, allowed);
    lemma_keys_within_concat(p0 + p1 + p2 + p3 + p4, p5, allowed);
    lemma_keys_within_concat(p0 + p1 + p2 + p3 + p4 + p5, p6, allowed);
    lemma_keys_within_concat(p0 + p1 + p2 + p3 + p4 + p5 + p6, p7, allowed);
    lemma_keys_within_concat(p0 + p1 + p2 + p3 + p4 + p5 + p6 + p7, p8, allowed);
    lemma_keys_within_concat(p0 + p1 + p2 + p3 + p4 + p5 + p6 + p7 + p8, p9, allowed);
    assert(spec_enc_buttons(c.buttons).len() == c.buttons.len());
    assert(spec_dec_item_content(spec_enc_item_content(c)) == Some(c));
}

/// A card embedded in a carousel: one of the three content shapes, with no
/// wrapper key of its own.
#[derive(Debug)]
pub enum Card {
    Basic(BasicCardContent),
    Commerce(CommerceCardContent),
    Item(ItemCardContent),
}

/// Model of a card.
#[verifier::ext_equal]
pub enum CardV {
    Basic(BasicCardContentV),
    Commerce(CommerceCardContentV),
    Item(ItemCardContentV),
}

impl View for Card {
    type V = CardV;

    open spec fn view(&self) -> CardV {
        match self {
            Card::Basic(c) => CardV::Basic(c@),
            Card::Commerce(c) => CardV::Commerce(c@),
            Card::Item(c) => CardV::Item(c@),
        }
    }
}

impl CardV {
    /// Every button of the card is well-formed.
    pub open spec fn wf(self) -> bool {
        match self {
            CardV::Basic(c) => c.wf(),
            CardV::Commerce(c) => c.wf(),
            CardV::Item(c) => c.wf(),
        }
    }
}

/// Encoding of a card: the content object itself; the surrounding carousel
/// names the kind.
pub open spec fn spec_enc_card(c: CardV) -> JsonVal {
    match c {
        CardV::Basic(b) => spec_enc_basic_content(b),
        CardV::Commerce(co) => spec_enc_commerce_content(co),
        CardV::Item(it) => spec_enc_item_content(it),
    }
}

/// Decoding of a card: the shapes are tried in a fixed order — basic, then
/// commerce, then item — and the first whose required fields are present and
/// whose key set fits is taken.
pub open spec fn spec_dec_card(v: JsonVal) -> Option<CardV> {
    match spec_dec_basic_content(v) {
        Some(b) => Some(CardV::Basic(b)),
        None => match spec_dec_commerce_content(v) {
            Some(co) => Some(CardV::Commerce(co)),
            None => match spec_dec_item_content(v) {
                Some(it) => Some(CardV::Item(it)),
                None => None,
            },
        },
    }
}

impl Card {
    /// Encodes this card as its wire object.
    pub fn encode(&self) -> (r: JsonValue)
        ensures
            r@ == spec_enc_card(self@),
    {
        match self {
            Card::Basic(c) => c.encode(),
            Card::Commerce(c) => c.encode(),
            Card::Item(c) => c.encode(),
        }
    }

    /// Decodes a card from its wire object, trying the shapes in the fixed
    /// order.
    pub fn decode(v: &JsonValue) -> (r: Result<Card, DecodeError>)
        ensures
            match r {
                Ok(c) => spec_dec_card(v@) == Some(c@),
                Err(_) => spec_dec_card(v@) is None,
            },
    {
        match BasicCardContent::decode(v) {
            Ok(b) => Ok(Card::Basic(b)),
            Err(_) => match CommerceCardContent::decode(v) {
                Ok(co) => Ok(Card::Commerce(co)),
                Err(_) => match ItemCardContent::decode(v) {
                    Ok(it) => Ok(Card::Item(it)),
                    Err(e) => Err(e),
                },
            },
        }
    }
}

/// An encoded commerce card never passes for a basic card: its `price` key
/// lies outside the basic card's schema.
pub proof fn lemma_commerce_not_basic(c: CommerceCardContentV)
    ensures
        spec_dec_basic_content(spec_enc_commerce_content(c)) is None,
{
    lemma_commerce_content_keys();
    lemma_basic_content_keys();
    reveal_strlit("price");
    reveal_strlit("title");
    reveal_strlit("description");
    reveal_strlit("thumbnail");
    reveal_strlit("buttons");
    assert("price"@.len() == 5 && "title"@.len() == 5 && "description"@.len() == 11
        && "thumbnail"@.len() == 9 && "buttons"@.len() == 7);
    assert("price"@[0] == 'p' && "title"@[0] == 't');
    let p = spec_enc_commerce_content(c)->Obj_0;
    assert(p[1] == ("price"@, JsonVal::Int(c.price as int)));
    let allowed = basic_content_allowed_keys();
    assert(!allowed.contains("price"@)) by {
        assert(forall|j: int| 0 <= j < allowed.len() ==> allowed[j] != "price"@) by {
            assert(allowed[0] == "title"@ && allowed[1] == "description"@ && allowed[2]
                == "thumbnail"@ && allowed[3] == "buttons"@);
        }
    }
    assert(!keys_within(p, allowed)) by {
        assert(p.len() >= 3);
        assert(p[1].0 == "price"@);
        assert(!allowed.contains(p[1].0));
    }
}

/// An encoded item card never passes for a basic card: its `itemList` key
/// lies outside the basic card's schema.
pub proof fn lemma_item_not_basic(c: ItemCardContentV)
    ensures
        spec_dec_basic_content(spec_enc_item_content(c)) is None,
{
    lemma_item_content_keys();
    lemma_basic_content_keys();
    reveal_strlit("itemList");
    reveal_strlit("title");
    reveal_strlit("description");
    reveal_strlit("thumbnail");
    reveal_strlit("buttons");
    assert("itemList"@.len() == 8 && "title"@.len() == 5 && "description"@.len() == 11
        && "thumbnail"@.len() == 9 && "buttons"@.len() == 7);
    let p = spec_enc_item_content(c)->Obj_0;
    let g2 = opt_val_entry("thumbnail"@, enc_opt_thumbnail(c.thumbnail)) + opt_val_entry(
        "head"@,
        enc_opt_head(c.head),
    ) + opt_val_entry("imageTitle"@, enc_opt_image_title(c.image_title));
    let k = g2.len();
    assert(p[k as int] == ("itemList"@, JsonVal::Arr(spec_enc_item_rows(c.item_list))));
    let allowed = basic_content_allowed_keys();
    assert(!allowed.contains("itemList"@)) by {
        assert(forall|j: int| 0 <= j < allowed.len() ==> allowed[j] != "itemList"@) by {
            assert(allowed[0] == "title"@ && allowed[1] == "description"@ && allowed[2]
                == "thumbnail"@ && allowed[3] == "buttons"@);
        }
    }
    assert(!keys_within(p, allowed)) by {
        assert(0 <= k < p.len());
        assert(p[k as int].0 == "itemList"@);
        assert(!allowed.contains(p[k as int].0));
    }
}

/// An encoded item card never passes for a commerce card either.
pub proof fn lemma_item_not_commerce(c: ItemCardContentV)
    ensures
        spec_dec_commerce_content(spec_enc_item_content(c)) is None,
{
    lemma_item_content_keys();
    lemma_commerce_content_keys();
    reveal_strlit("itemList");
    reveal_strlit("description");
    reveal_strlit("price");
    reveal_strlit("currency");
    reveal_strlit("discount");
    reveal_strlit("discountRate");
    reveal_strlit("discountedPrice");
    reveal_strlit("thumbnails");
    reveal_strlit("buttons");
    assert("itemList"@.len() == 8 && "description"@.len() == 11 && "price"@.len() == 5
        && "currency"@.len() == 8 && "discount"@.len() == 8 && "discountRate"@.len() == 12
        && "discountedPrice"@.len() == 15 && "thumbnails"@.len() == 10 && "buttons"@.len() == 7);
    assert("itemList"@[0] == 'i' && "currency"@[0] == 'c' && "discount"@[0] == 'd');
    let p = spec_enc_item_content(c)->Obj_0;
    let g2 = opt_val_entry("thumbnail"@, enc_opt_thumbnail(c.thumbnail)) + opt_val_entry(
        "head"@,
        enc_opt_head(c.head),
    ) + opt_val_entry("imageTitle"@, enc_opt_image_title(c.image_title));
    let k = g2.len();
    assert(p[k as int] == ("itemList"@, JsonVal::Arr(spec_enc_item_rows(c.item_list))));
    let allowed = commerce_content_allowed_keys();
    assert(!allowed.contains("itemList"@)) by {
        assert(forall|j: int| 0 <= j < allowed.len() ==> allowed[j] != "itemList"@) by {
            assert(allowed[0] == "description"@ && allowed[1] == "price"@ && allowed[2]
                == "currency"@ && allowed[3] == "discount"@ && allowed[4] == "discountRate"@
                && allowed[5] == "discountedPrice"@ && allowed[6] == "thumbnails"@ && allowed[7]
                == "buttons"@);
        }
    }
    assert(!keys_within(p, allowed)) by {
        assert(0 <= k < p.len());
        assert(p[k as int].0 == "itemList"@);
        assert(!allowed.contains(p[k as int].0));
    }
}

/// Round trip: decoding an encoded card gives it back, for every well-formed
/// card. The fixed trial order cannot mistake one shape for another.
pub proof fn lemma_card_round_trip(c: CardV)
    requires
        c.wf(),
    ensures
        spec_dec_card(spec_enc_card(c)) == Some(c),
{
    match c {
        CardV::Basic(b) => {
            lemma_basic_content_round_trip(b);
        },
        CardV::Commerce(co) => {
            lemma_commerce_not_basic(co);
            lemma_commerce_content_round_trip(co);
        },
        CardV::Item(it) => {
            lemma_item_not_basic(it);
            lemma_item_not_commerce(it);
            lemma_item_content_round_trip(it);
        },
    }
}

/// Models of a sequence of card values.
pub open spec fn cards_view(s: Seq<Card>) -> Seq<CardV> {
    Seq::new(s.len(), |i: int| s[i]@)
}

/// Encoded forms of a sequence of cards, in order.
pub open spec fn spec_enc_cards(s: Seq<CardV>) -> Seq<JsonVal> {
    Seq::new(s.len(), |i: int| spec_enc_card(s[i]))
}

/// Decoding of a sequence of cards; any failing element fails the whole.
pub open spec fn spec_dec_cards(s: Seq<JsonVal>) -> Option<Seq<CardV>>
    decreases s,
{
    if s.len() == 0 {
        Some(Seq::empty())
    } else {
        match (spec_dec_cards(s.drop_last()), spec_dec_card(s.last())) {
            (Some(rest), Some(x)) => Some(rest.push(x)),
            _ => None,
        }
    }
}

proof fn lemma_dec_cards_prefix_none(s: Seq<JsonVal>, i: int)
    requires
        0 <= i <= s.len(),
        spec_dec_cards(s.take(i)) is None,
    ensures
        spec_dec_cards(s) is None,
    decreases s.len() - i,
{
    if i == s.len() {
        assert(s.take(i) =~= s);
    } else {
        assert(s.take(i + 1).drop_last() =~= s.take(i));
        lemma_dec_cards_prefix_none(s, i + 1);
    }
}

/// Encodes each element, keeping order.
pub fn encode_cards(v: &Vec<Card>) -> (r: Vec<JsonValue>)
    ensures
        vals_view(r@) == spec_enc_cards(cards_view(v@)),
{
    let mut out: Vec<JsonValue> = Vec::new();
    let n = v.len();
    let mut i: usize = 0;
    while i < n
        invariant
            n == v.len(),
            0 <= i <= n,
            vals_view(out@) == spec_enc_cards(cards_view(v@)).take(i as int),
        decreases n - i,
    {
        arr_push(&mut out, v[i].encode());
        proof {
            assert(vals_view(out@) =~= spec_enc_cards(cards_view(v@)).take(i as int + 1));
        }
        i = i + 1;
    }
    proof {
        assert(spec_enc_cards(cards_view(v@)).take(n as int) =~= spec_enc_cards(cards_view(v@)));
    }
    out
}

/// Decodes each element, keeping order; the first failure is reported.
pub fn decode_cards(v: &Vec<JsonValue>) -> (r: Result<Vec<Card>, DecodeError>)
    ensures
        match r {
            Ok(xs) => spec_dec_cards(vals_view(v@)) == Some(cards_view(xs@)),
            Err(_) => spec_dec_cards(vals_view(v@)) is None,
        },
{
    let mut out: Vec<Card> = Vec::new();
    let n = v.len();
    let mut i: usize = 0;
    while i < n
        invariant
            n == v.len(),
            0 <= i <= n,
            out.len() == i,
            spec_dec_cards(vals_view(v@).take(i as int)) == Some(cards_view(out@)),
        decreases n - i,
    {
        proof {
            lemma_vals_view_len(v@);
            lemma_vals_view_index(v@, i as int);
            assert(vals_view(v@).take(i as int + 1).drop_last() =~= vals_view(v@).take(i as int));
            assert(vals_view(v@).take(i as int + 1).last() == v@[i as int]@);
        }
        match Card::decode(&v[i]) {
            Ok(x) => {
                let ghost prev = cards_view(out@);
                out.push(x);
                proof {
                    assert(cards_view(out@) =~= prev.push(x@));
                }
            },
            Err(e) => {
                proof {
                    assert(spec_dec_cards(vals_view(v@).take(i as int + 1)) is None);
                    lemma_dec_cards_prefix_none(vals_view(v@), i as int + 1);
                }
                return Err(e);
            },
        }
        i = i + 1;
    }
    proof {
        lemma_vals_view_len(v@);
        assert(vals_view(v@).take(n as int) =~= vals_view(v@));
    }
    Ok(out)
}

/// Round trip for a whole sequence of cards.
pub proof fn lemma_cards_round_trip(s: Seq<CardV>)
    requires
        forall|i: int| 0 <= i < s.len() ==> (#[trigger] s[i]).wf(),
    ensures
        spec_dec_cards(spec_enc_cards(s)) == Some(s),
    decreases s,
{
    if s.len() == 0 {
        assert(spec_enc_cards(s) =~= Seq::<JsonVal>::empty());
    } else {
        assert(spec_enc_cards(s).drop_last() =~= spec_enc_cards(s.drop_last()));
        assert(spec_enc_cards(s).last() == spec_enc_card(s.last()));
        lemma_cards_round_trip(s.drop_last());
        lemma_card_round_trip(s.last());
        assert(s.drop_last().push(s.last()) =~= s);
        assert(spec_dec_cards(spec_enc_cards(s)) == Some(s));
    }
}

/// Builder for a standalone basic card.
#[derive(Debug)]
pub struct BasicCard {
    pub content: BasicCardContent,
}

impl View for BasicCard {
    type V = BasicCardContentV;

    open spec fn view(&self) -> BasicCardContentV {
        self.content@
    }
}

impl BasicCard {
    /// An empty basic card: no title or description, a blank thumbnail, no
    /// buttons.
    pub fn new() -> (r: BasicCard)
        ensures
            r@ == (BasicCardContentV {
                title: None,
                description: None,
                thumbnail: (ThumbNailV {
                    image_url: Seq::<char>::empty(),
                    link: None,
                    fixed_ratio: false,
                    width: None,
                    height: None,
                }),
                buttons: Seq::<ButtonV>::empty(),
            }),
    {
        let r = BasicCard {
            content: BasicCardContent {
                title: None,
                description: None,
                thumbnail: ThumbNail::new(""),
                buttons: Vec::new(),
            },
        };
        proof {
            assert(buttons_view(Seq::<Button>::empty()) =~= Seq::<ButtonV>::empty());
            assert(""@ =~= Seq::<char>::empty()) by {
                reveal_strlit("");
            }
        }
        r
    }

    /// Appends a button.
    pub fn add_button(self, btn: Button) -> (r: BasicCard)
        ensures
            r@ == (BasicCardContentV { buttons: self@.buttons.push(btn@), ..self@ }),
    {
        let ghost prev = self.content.buttons@;
        let ghost b = btn;
        let mut content = self.content;
        content.buttons.push(btn);
        proof {
            assert(buttons_view(prev.push(b)) =~= buttons_view(prev).push(b@));
        }
        BasicCard { content }
    }

    /// Sets the description.
    pub fn set_desc(self, desc: &str) -> (r: BasicCard)
        ensures
            r@ == (BasicCardContentV { description: Some(desc@), ..self@ }),
    {
        BasicCard {
            content: BasicCardContent {
                description: Some(String::from_str(desc)),
                ..self.content
            },
        }
    }

    /// Sets the thumbnail image URL.
    pub fn set_thumbnail(self, url: &str) -> (r: BasicCard)
        ensures
            r@ == (BasicCardContentV {
                thumbnail: (ThumbNailV { image_url: url@, ..self@.thumbnail }),
                ..self@
            }),
    {
        let mut content = self.content;
        content.thumbnail.image_url = String::from_str(url);
        BasicCard { content }
    }

    /// Wraps this card as a standalone output.
    pub fn build(self) -> (r: crate::basics::Types)
        ensures
            r@ == crate::basics::TypesV::Basic(self@),
    {
        crate::basics::Types::Basic(self)
    }

    /// Wraps this card's content for embedding in a carousel.
    pub fn build_card(self) -> (r: Card)
        ensures
            r@ == CardV::Basic(self@),
    {
        Card::Basic(self.content)
    }

    /// Sets the title.
    pub fn set_title(self, title: &str) -> (r: BasicCard)
        ensures
            r@ == (BasicCardContentV { title: Some(title@), ..self@ }),
    {
        BasicCard {
            content: BasicCardContent { title: Some(String::from_str(title)), ..self.content },
        }
    }

    /// Sets the description.
    pub fn set_description(self, desc: &str) -> (r: BasicCard)
        ensures
            r@ == (BasicCardContentV { description: Some(desc@), ..self@ }),
    {
        BasicCard {
            content: BasicCardContent {
                description: Some(String::from_str(desc)),
                ..self.content
            },
        }
    }

    /// Sets the thumbnail's link target.
    pub fn set_link(self, link: &str) -> (r: BasicCard)
        ensures
            r@ == (BasicCardContentV {
                thumbnail: (ThumbNailV {
                    link: Some((crate::basics::LinkV { web: link@ })),
                    ..self@.thumbnail
                }),
                ..self@
            }),
    {
        let mut content = self.content;
        content.thumbnail.link = Some(crate::basics::Link { web: String::from_str(link) });
        BasicCard { content }
    }

    /// Sets the thumbnail's fixed-ratio flag.
    pub fn set_fixed_ratio(self, fixed: bool) -> (r: BasicCard)
        ensures
            r@ == (BasicCardContentV {
                thumbnail: (ThumbNailV { fixed_ratio: fixed, ..self@.thumbnail }),
                ..self@
            }),
    {
        let mut content = self.content;
        content.thumbnail.fixed_ratio = fixed;
        BasicCard { content }
    }

    /// Sets the thumbnail's width.
    pub fn set_width(self, width: i32) -> (r: BasicCard)
        ensures
            r@ == (BasicCardContentV {
                thumbnail: (ThumbNailV { width: Some(width), ..self@.thumbnail }),
                ..self@
            }),
    {
        let mut content = self.content;
        content.thumbnail.width = Some(width);
        BasicCard { content }
    }

    /// Sets the thumbnail's height.
    pub fn set_height(self, height: i32) -> (r: BasicCard)
        ensures
            r@ == (BasicCardContentV {
                thumbnail: (ThumbNailV { height: Some(height), ..self@.thumbnail }),
                ..self@
            }),
    {
        let mut content = self.content;
        content.thumbnail.height = Some(height);
        BasicCard { content }
    }

    /// The wire tag of this card kind, used as a carousel's `type`.
    pub fn id() -> (r: String)
        ensures
            r@ == "basicCard"@,
    {
        String::from_str("basicCard")
    }
}

/// Builder for a standalone commerce card.
#[derive(Debug)]
pub struct CommerceCard {
    pub content: CommerceCardContent,
}

impl View for CommerceCard {
    type V = CommerceCardContentV;

    open spec fn view(&self) -> CommerceCardContentV {
        self.content@
    }
}

impl CommerceCard {
    /// An empty commerce card: blank description and currency, price zero,
    /// no discounts, thumbnails or buttons.
    pub fn new() -> (r: CommerceCard)
        ensures
            r@ == (CommerceCardContentV {
                description: Seq::<char>::empty(),
                price: 0,
                currency: Seq::<char>::empty(),
                discount: None,
                discount_rate: None,
                discounted_price: None,
                thumbnails: Seq::<ThumbNailV>::empty(),
                buttons: Seq::<ButtonV>::empty(),
            }),
    {
        let r = CommerceCard {
            content: CommerceCardContent {
                description: String::new(),
                price: 0,
                currency: String::new(),
                discount: None,
                discount_rate: None,
                discounted_price: None,
                thumbnails: Vec::new(),
                buttons: Vec::new(),
            },
        };
        proof {
            assert(buttons_view(Seq::<Button>::empty()) =~= Seq::<ButtonV>::empty());
            assert(crate::basics::thumbnails_view(Seq::<ThumbNail>::empty())
                =~= Seq::<ThumbNailV>::empty());
        }
        r
    }

    /// Appends a button.
    pub fn add_button(self, btn: Button) -> (r: CommerceCard)
        ensures
            r@ == (CommerceCardContentV { buttons: self@.buttons.push(btn@), ..self@ }),
    {
        let ghost prev = self.content.buttons@;
        let ghost b = btn;
        let mut content = self.content;
        content.buttons.push(btn);
        proof {
            assert(buttons_view(prev.push(b)) =~= buttons_view(prev).push(b@));
        }
        CommerceCard { content }
    }

    /// Sets the description.
    pub fn set_desc(self, desc: &str) -> (r: CommerceCard)
        ensures
            r@ == (CommerceCardContentV { description: desc@, ..self@ }),
    {
        CommerceCard {
            content: CommerceCardContent { description: String::from_str(desc), ..self.content },
        }
    }

    /// Appends a thumbnail showing the given image.
    pub fn set_thumbnail(self, url: &str) -> (r: CommerceCard)
        ensures
            r@ == (CommerceCardContentV {
                thumbnails: self@.thumbnails.push(
                    (ThumbNailV {
                        image_url: url@,
                        link: None,
                        fixed_ratio: false,
                        width: None,
                        height: None,
                    }),
                ),
                ..self@
            }),
    {
        let ghost prev = self.content.thumbnails@;
        let t = ThumbNail::new(url);
        let ghost tg = t;
        let mut content = self.content;
        content.thumbnails.push(t);
        proof {
            assert(crate::basics::thumbnails_view(prev.push(tg)) =~= crate::basics::thumbnails_view(
                prev,
            ).push(tg@));
        }
        CommerceCard { content }
    }

    /// Wraps this card as a standalone output.
    pub fn build(self) -> (r: crate::basics::Types)
        ensures
            r@ == crate::basics::TypesV::Commerce(self@),
    {
        crate::basics::Types::Commerce(self)
    }

    /// Wraps this card's content for embedding in a carousel.
    pub fn build_card(self) -> (r: Card)
        ensures
            r@ == CardV::Commerce(self@),
    {
        Card::Commerce(self.content)
    }

    /// Sets the price.
    pub fn set_price(self, price: i32) -> (r: CommerceCard)
        ensures
            r@ == (CommerceCardContentV { price: price, ..self@ }),
    {
        CommerceCard { content: CommerceCardContent { price, ..self.content } }
    }

    /// Sets the currency.
    pub fn set_currency(self, currency: &str) -> (r: CommerceCard)
        ensures
            r@ == (CommerceCardContentV { currency: currency@, ..self@ }),
    {
        CommerceCard {
            content: CommerceCardContent { currency: String::from_str(currency), ..self.content },
        }
    }

    /// Sets the flat discount.
    pub fn set_discount(self, discount: i32) -> (r: CommerceCard)
        ensures
            r@ == (CommerceCardContentV { discount: Some(discount), ..self@ }),
    {
        CommerceCard { content: CommerceCardContent { discount: Some(discount), ..self.content } }
    }

    /// Sets the paired discount rate and discounted price.
    pub fn set_discount_rate_price(self, rate: i32, priced: i32) -> (r: CommerceCard)
        ensures
            r@ == (CommerceCardContentV {
                discount_rate: Some(rate),
                discounted_price: Some(priced),
                ..self@
            }),
    {
        CommerceCard {
            content: CommerceCardContent {
                discount_rate: Some(rate),
                discounted_price: Some(priced),
                ..self.content
            },
        }
    }

    /// The wire tag of this card kind, used as a carousel's `type`.
    pub fn id() -> (r: String)
        ensures
            r@ == "commerceCard"@,
    {
        String::from_str("commerceCard")
    }
}

/// Builder for a standalone item card.
#[derive(Debug)]
pub struct ItemCard {
    pub content: ItemCardContent,
}

impl View for ItemCard {
    type V = ItemCardContentV;

    open spec fn view(&self) -> ItemCardContentV {
        self.content@
    }
}

impl ItemCard {
    /// An empty item card: an empty row list and nothing else.
    pub fn new() -> (r: ItemCard)
        ensures
            r@ == (ItemCardContentV {
                thumbnail: None,
                head: None,
                image_title: None,
                item_list: Seq::<ItemListV>::empty(),
                item_list_alignment: None,
                item_list_summary: None,
                title: None,
                description: None,
                buttons: Seq::<ButtonV>::empty(),
                button_layout: None,
            }),
    {
        let r = ItemCard {
            content: ItemCardContent {
                thumbnail: None,
                head: None,
                image_title: None,
                item_list: Vec::new(),
                item_list_alignment: None,
                item_list_summary: None,
                title: None,
                description: None,
                buttons: Vec::new(),
                button_layout: None,
            },
        };
        proof {
            assert(buttons_view(Seq::<Button>::empty()) =~= Seq::<ButtonV>::empty());
            assert(item_rows_view(Seq::<ItemList>::empty()) =~= Seq::<ItemListV>::empty());
        }
        r
    }

    /// Wraps this card as a standalone output.
    pub fn build(self) -> (r: crate::basics::Types)
        ensures
            r@ == crate::basics::TypesV::Item(self@),
    {
        crate::basics::Types::Item(self)
    }

    /// Wraps this card's content for embedding in a carousel.
    pub fn build_card(self) -> (r: Card)
        ensures
            r@ == CardV::Item(self@),
    {
        Card::Item(self.content)
    }

    /// Appends a button.
    pub fn add_button(self, btn: Button) -> (r: ItemCard)
        ensures
            r@ == (ItemCardContentV { buttons: self@.buttons.push(btn@), ..self@ }),
    {
        let ghost prev = self.content.buttons@;
        let ghost b = btn;
        let mut content = self.content;
        content.buttons.push(btn);
        proof {
            assert(buttons_view(prev.push(b)) =~= buttons_view(prev).push(b@));
        }
        ItemCard { content }
    }

    /// Sets the title.
    pub fn set_title(self, title: &str) -> (r: ItemCard)
        ensures
            r@ == (ItemCardContentV { title: Some(title@), ..self@ }),
    {
        ItemCard {
            content: ItemCardContent { title: Some(String::from_str(title)), ..self.content },
        }
    }

    /// Sets the description.
    pub fn set_desc(self, desc: &str) -> (r: ItemCard)
        ensures
            r@ == (ItemCardContentV { description: Some(desc@), ..self@ }),
    {
        ItemCard {
            content: ItemCardContent { description: Some(String::from_str(desc)), ..self.content },
        }
    }

    /// Sets the button layout.
    pub fn set_button_layout(self, layout: &str) -> (r: ItemCard)
        ensures
            r@ == (ItemCardContentV { button_layout: Some(layout@), ..self@ }),
    {
        ItemCard {
            content: ItemCardContent {
                button_layout: Some(String::from_str(layout)),
                ..self.content
            },
        }
    }

    /// Sets the row list alignment.
    pub fn set_item_list_alignment(self, align: &str) -> (r: ItemCard)
        ensures
            r@ == (ItemCardContentV { item_list_alignment: Some(align@), ..self@ }),
    {
        ItemCard {
            content: ItemCardContent {
                item_list_alignment: Some(String::from_str(align)),
                ..self.content
            },
        }
    }

    /// Sets the summary row.
    pub fn set_item_list_summary(self, title: &str, desc: &str) -> (r: ItemCard)
        ensures
            r@ == (ItemCardContentV {
                item_list_summary: Some((ItemListSummaryV { title: title@, description: desc@ })),
                ..self@
            }),
    {
        ItemCard {
            content: ItemCardContent {
                item_list_summary: Some(
                    ItemListSummary {
                        title: String::from_str(title),
                        description: String::from_str(desc),
                    },
                ),
                ..self.content
            },
        }
    }

    /// Sets the thumbnail image.
    pub fn set_thumbnail(self, url: &str) -> (r: ItemCard)
        ensures
            r@ == (ItemCardContentV {
                thumbnail: Some(
                    (ThumbNailV {
                        image_url: url@,
                        link: None,
                        fixed_ratio: false,
                        width: None,
                        height: None,
                    }),
                ),
                ..self@
            }),
    {
        ItemCard {
            content: ItemCardContent { thumbnail: Some(ThumbNail::new(url)), ..self.content },
        }
    }

    /// Sets the heading.
    pub fn set_head(self, title: &str) -> (r: ItemCard)
        ensures
            r@ == (ItemCardContentV {
                head: Some((HeadV { title: title@ })),
                ..self@
            }),
    {
        ItemCard {
            content: ItemCardContent {
                head: Some(Head { title: String::from_str(title) }),
                ..self.content
            },
        }
    }

    /// Sets the image title heading.
    pub fn set_image_title(self, title: &str) -> (r: ItemCard)
        ensures
            r@ == (ItemCardContentV {
                image_title: Some((ImageTitleV { title: title@, description: None, image_url: None })),
                ..self@
            }),
    {
        ItemCard {
            content: ItemCardContent { image_title: Some(ImageTitle::new(title)), ..self.content },
        }
    }

    /// Sets the image title's description, if an image title is present.
    pub fn set_image_desc(self, desc: &str) -> (r: ItemCard)
        ensures
            r@ == (match self@.image_title {
                Some(it) => (ItemCardContentV {
                    image_title: Some((ImageTitleV { description: Some(desc@), ..it })),
                    ..self@
                }),
                None => self@,
            }),
    {
        let mut content = self.content;
        if let Some(image) = &mut content.image_title {
            image.description = Some(String::from_str(desc));
        }
        ItemCard { content }
    }

    /// Sets the image title's image, if an image title is present.
    pub fn set_image(self, url: &str) -> (r: ItemCard)
        ensures
            r@ == (match self@.image_title {
                Some(it) => (ItemCardContentV {
                    image_title: Some((ImageTitleV { image_url: Some(url@), ..it })),
                    ..self@
                }),
                None => self@,
            }),
    {
        let mut content = self.content;
        if let Some(image) = &mut content.image_title {
            image.image_url = Some(String::from_str(url));
        }
        ItemCard { content }
    }

    /// Sets the thumbnail's height, if a thumbnail is present.
    pub fn set_thumbnail_height(self, height: i32) -> (r: ItemCard)
        ensures
            r@ == (match self@.thumbnail {
                Some(t) => (ItemCardContentV {
                    thumbnail: Some((ThumbNailV { height: Some(height), ..t })),
                    ..self@
                }),
                None => self@,
            }),
    {
        let mut content = self.content;
        if let Some(thumb) = &mut content.thumbnail {
            thumb.height = Some(height);
        }
        ItemCard { content }
    }

    /// Sets the thumbnail's width, if a thumbnail is present.
    pub fn set_thumbnail_width(self, width: i32) -> (r: ItemCard)
        ensures
            r@ == (match self@.thumbnail {
                Some(t) => (ItemCardContentV {
                    thumbnail: Some((ThumbNailV { width: Some(width), ..t })),
                    ..self@
                }),
                None => self@,
            }),
    {
        let mut content = self.content;
        if let Some(thumb) = &mut content.thumbnail {
            thumb.width = Some(width);
        }
        ItemCard { content }
    }
}

/// A carousel's `items` array field: absent means empty.
pub open spec fn cards_arr_field(p: Seq<(Seq<char>, JsonVal)>, key: Seq<char>) -> Option<
    Seq<CardV>,
> {
    match obj_lookup(p, key) {
        None => Some(Seq::empty()),
        Some(JsonVal::Arr(a)) => spec_dec_cards(a),
        Some(_) => None,
    }
}

pub fn get_cards_arr(pairs: &Vec<(String, JsonValue)>, key: &str) -> (r: Result<
    Vec<Card>,
    DecodeError,
>)
    ensures
        match r {
            Ok(cs) => cards_arr_field(pairs_view(pairs@), key@) == Some(cards_view(cs@)),
            Err(_) => cards_arr_field(pairs_view(pairs@), key@) is None,
        },
{
    match obj_get(pairs, key) {
        Some(v) => match v {
            JsonValue::Arr(a) => decode_cards(a),
            _ => Err(DecodeError::WrongType),
        },
        None => {
            let out: Vec<Card> = Vec::new();
            proof {
                assert(cards_view(out@) =~= Seq::<CardV>::empty());
            }
            Ok(out)
        },
    }
}

/// An encoded head holds no `null`.
pub proof fn lemma_enc_head_no_null(h: HeadV)
    ensures
        !crate::json::has_null(spec_enc_head(h)),
{
    crate::json::lemma_has_null_pairs_single("title"@, JsonVal::Str(h.title));
}

/// An encoded item row holds no `null`.
pub proof fn lemma_enc_item_row_no_null(x: ItemListV)
    ensures
        !crate::json::has_null(spec_enc_item_row(x)),
{
    let pa = seq![("title"@, JsonVal::Str(x.title))];
    let pb = seq![("description"@, JsonVal::Str(x.description))];
    assert(seq![("title"@, JsonVal::Str(x.title)), ("description"@, JsonVal::Str(x.description))]
        =~= pa + pb);
    crate::json::lemma_has_null_pairs_single("title"@, JsonVal::Str(x.title));
    crate::json::lemma_has_null_pairs_single("description"@, JsonVal::Str(x.description));
    crate::json::lemma_has_null_pairs_concat(pa, pb);
}

/// An encoded item row sequence holds no `null`.
pub proof fn lemma_enc_item_rows_no_null(s: Seq<ItemListV>)
    ensures
        !crate::json::has_null_seq(spec_enc_item_rows(s)),
{
    crate::json::lemma_has_null_seq_iff(spec_enc_item_rows(s));
    assert forall|i: int| 0 <= i < spec_enc_item_rows(s).len() implies !crate::json::has_null(
        #[trigger] spec_enc_item_rows(s)[i],
    ) by {
        lemma_enc_item_row_no_null(s[i]);
    }
}

/// An encoded summary row holds no `null`.
pub proof fn lemma_enc_item_summary_no_null(x: ItemListSummaryV)
    ensures
        !crate::json::has_null(spec_enc_item_summary(x)),
{
    let pa = seq![("title"@, JsonVal::Str(x.title))];
    let pb = seq![("description"@, JsonVal::Str(x.description))];
    assert(seq![("title"@, JsonVal::Str(x.title)), ("description"@, JsonVal::Str(x.description))]
        =~= pa + pb);
    crate::json::lemma_has_null_pairs_single("title"@, JsonVal::Str(x.title));
    crate::json::lemma_has_null_pairs_single("description"@, JsonVal::Str(x.description));
    crate::json::lemma_has_null_pairs_concat(pa, pb);
}

/// An encoded image title holds no `null`.
pub proof fn lemma_enc_image_title_no_null(x: ImageTitleV)
    ensures
        !crate::json::has_null(spec_enc_image_title(x)),
{
    let pa = seq![("title"@, JsonVal::Str(x.title))];
    let pb = opt_str_entry("description"@, x.description);
    let pc = opt_str_entry("imageUrl"@, x.image_url);
    crate::json::lemma_has_null_pairs_single("title"@, JsonVal::Str(x.title));
    crate::json::lemma_opt_str_entry_no_null("description"@, x.description);
    crate::json::lemma_opt_str_entry_no_null("imageUrl"@, x.image_url);
    crate::json::lemma_has_null_pairs_concat(pa, pb);
    crate::json::lemma_has_null_pairs_concat(pa + pb, pc);
}

/// An encoded basic card holds no `null`.
pub proof fn lemma_enc_basic_content_no_null(c: BasicCardContentV)
    ensures
        !crate::json::has_null(spec_enc_basic_content(c)),
{
    crate::basics::lemma_enc_thumbnail_no_null(c.thumbnail);
    crate::buttons::lemma_enc_buttons_no_null(c.buttons);
    let pa = opt_str_entry("title"@, c.title);
    let pb = opt_str_entry("description"@, c.description);
    let pc = seq![("thumbnail"@, spec_enc_thumbnail(c.thumbnail))];
    let pd = nonempty_arr_entry("buttons"@, spec_enc_buttons(c.buttons));
    crate::json::lemma_opt_str_entry_no_null("title"@, c.title);
    crate::json::lemma_opt_str_entry_no_null("description"@, c.description);
    crate::json::lemma_has_null_pairs_single("thumbnail"@, spec_enc_thumbnail(c.thumbnail));
    crate::json::lemma_nonempty_arr_entry_null("buttons"@, spec_enc_buttons(c.buttons));
    crate::json::lemma_has_null_pairs_concat(pa, pb);
    crate::json::lemma_has_null_pairs_concat(pa + pb, pc);
    crate::json::lemma_has_null_pairs_concat(pa + pb + pc, pd);
}

/// An encoded commerce card holds no `null`.
pub proof fn lemma_enc_commerce_content_no_null(c: CommerceCardContentV)
    ensures
        !crate::json::has_null(spec_enc_commerce_content(c)),
{
    crate::basics::lemma_enc_thumbnails_no_null(c.thumbnails);
    crate::buttons::lemma_enc_buttons_no_null(c.buttons);
    let pa = seq![("description"@, JsonVal::Str(c.description))];
    let pb = seq![("price"@, JsonVal::Int(c.price as int))];
    let pc = seq![("currency"@, JsonVal::Str(c.currency))];
    let p0 = seq![
        ("description"@, JsonVal::Str(c.description)),
        ("price"@, JsonVal::Int(c.price as int)),
        ("currency"@, JsonVal::Str(c.currency)),
    ];
    assert(p0 =~= pa + pb + pc);
    let pd = crate::json::opt_i32_entry("discount"@, c.discount);
    let pe = crate::json::opt_i32_entry("discountRate"@, c.discount_rate);
    let pf = crate::json::opt_i32_entry("discountedPrice"@, c.discounted_price);
    let pg = nonempty_arr_entry("thumbnails"@, crate::basics::spec_enc_thumbnails(c.thumbnails));
    let ph = nonempty_arr_entry("buttons"@, spec_enc_buttons(c.buttons));
    assert(p0 + pd + pe + pf + pg + ph =~= pa + pb + pc + pd + pe + pf + pg + ph);
    crate::json::lemma_has_null_pairs_single("description"@, JsonVal::Str(c.description));
    crate::json::lemma_has_null_pairs_single("price"@, JsonVal::Int(c.price as int));
    crate::json::lemma_has_null_pairs_single("currency"@, JsonVal::Str(c.currency));
    crate::json::lemma_opt_i32_entry_no_null("discount"@, c.discount);
    crate::json::lemma_opt_i32_entry_no_null("discountRate"@, c.discount_rate);
    crate::json::lemma_opt_i32_entry_no_null("discountedPrice"@, c.discounted_price);
    crate::json::lemma_nonempty_arr_entry_null(
        "thumbnails"@,
        crate::basics::spec_enc_thumbnails(c.thumbnails),
    );
    crate::json::lemma_nonempty_arr_entry_null("buttons"@, spec_enc_buttons(c.buttons));
    crate::json::lemma_has_null_pairs_concat(pa, pb);
    crate::json::lemma_has_null_pairs_concat(pa + pb, pc);
    crate::json::lemma_has_null_pairs_concat(pa + pb + pc, pd);
    crate::json::lemma_has_null_pairs_concat(pa + pb + pc + pd, pe);
    crate::json::lemma_has_null_pairs_concat(pa + pb + pc + pd + pe, pf);
    crate::json::lemma_has_null_pairs_concat(pa + pb + pc + pd + pe + pf, pg);
    crate::json::lemma_has_null_pairs_concat(pa + pb + pc + pd + pe + pf + pg, ph);
}

/// An encoded item card holds no `null`.
pub proof fn lemma_enc_item_content_no_null(c: ItemCardContentV)
    ensures
        !crate::json::has_null(spec_enc_item_content(c)),
{
    if let Some(th) = c.thumbnail {
        crate::basics::lemma_enc_thumbnail_no_null(th);
    }
    if let Some(hd) = c.head {
        lemma_enc_head_no_null(hd);
    }
    if let Some(it) = c.image_title {
        lemma_enc_image_title_no_null(it);
    }
    lemma_enc_item_rows_no_null(c.item_list);
    if let Some(su) = c.item_list_summary {
        lemma_enc_item_summary_no_null(su);
    }
    crate::buttons::lemma_enc_buttons_no_null(c.buttons);
    let p0 = opt_val_entry("thumbnail"@, enc_opt_thumbnail(c.thumbnail));
    let p1 = opt_val_entry("head"@, enc_opt_head(c.head));
    let p2 = opt_val_entry("imageTitle"@, enc_opt_image_title(c.image_title));
    let p3 = seq![("itemList"@, JsonVal::Arr(spec_enc_item_rows(c.item_list)))];
    let p4 = opt_str_entry("itemListAlignment"@, c.item_list_alignment);
    let p5 = opt_val_entry("itemListSummary"@, enc_opt_item_summary(c.item_list_summary));
    let p6 = opt_str_entry("title"@, c.title);
    let p7 = opt_str_entry("description"@, c.description);
    let p8 = nonempty_arr_entry("buttons"@, spec_enc_buttons(c.buttons));
    let p9 = opt_str_entry("buttonLayout"@, c.button_layout);
    crate::json::lemma_opt_val_entry_null("thumbnail"@, enc_opt_thumbnail(c.thumbnail));
    crate::json::lemma_opt_val_entry_null("head"@, enc_opt_head(c.head));
    crate::json::lemma_opt_val_entry_null("imageTitle"@, enc_opt_image_title(c.image_title));
    crate::json::lemma_has_null_pairs_single(
        "itemList"@,
        JsonVal::Arr(spec_enc_item_rows(c.item_list)),
    );
    crate::json::lemma_opt_str_entry_no_null("itemListAlignment"@, c.item_list_alignment);
    crate::json::lemma_opt_val_entry_null(
        "itemListSummary"@,
        enc_opt_item_summary(c.item_list_summary),
    );
    crate::json::lemma_opt_str_entry_no_null("title"@, c.title);
    crate::json::lemma_opt_str_entry_no_null("description"@, c.description);
    crate::json::lemma_nonempty_arr_entry_null("buttons"@, spec_enc_buttons(c.buttons));
    crate::json::lemma_opt_str_entry_no_null("buttonLayout"@, c.button_layout);
    crate::json::lemma_has_null_pairs_concat(p0, p1);
    crate::json::lemma_has_null_pairs_concat(p0 + p1, p2);
    crate::json::lemma_has_null_pairs_concat(p0 + p1 + p2, p3);
    crate::json::lemma_has_null_pairs_concat(p0 + p1 + p2 + p3, p4);
    crate::json::lemma_has_null_pairs_concat(p0 + p1 + p2 + p3 + p4, p5);
    crate::json::lemma_has_null_pairs_concat(p0 + p1 + p2 + p3 + p4 + p5, p6);
    crate::json::lemma_has_null_pairs_concat(p0 + p1 + p2 + p3 + p4 + p5 + p6, p7);
    crate::json::lemma_has_null_pairs_concat(p0 + p1 + p2 + p3 + p4 + p5 + p6 + p7, p8);
    crate::json::lemma_has_null_pairs_concat(p0 + p1 + p2 + p3 + p4 + p5 + p6 + p7 + p8, p9);
}

/// An encoded card holds no `null`.
pub proof fn lemma_enc_card_no_null(c: CardV)
    ensures
        !crate::json::has_null(spec_enc_card(c)),
{
    match c {
        CardV::Basic(b) => lemma_enc_basic_content_no_null(b),
        CardV::Commerce(co) => lemma_enc_commerce_content_no_null(co),
        CardV::Item(it) => lemma_enc_item_content_no_null(it),
    }
}

/// An encoded card sequence holds no `null`.
pub proof fn lemma_enc_cards_no_null(s: Seq<CardV>)
    ensures
        !crate::json::has_null_seq(spec_enc_cards(s)),
{
    crate::json::lemma_has_null_seq_iff(spec_enc_cards(s));
    assert forall|i: int| 0 <= i < spec_enc_cards(s).len() implies !crate::json::has_null(
        #[trigger] spec_enc_cards(s)[i],
    ) by {
        lemma_enc_card_no_null(s[i]);
    }
}

/// An encoded head holds no over-wide integer.
pub proof fn lemma_enc_head_no_big_int(h: HeadV)
    ensures
        !crate::json::has_big_int(spec_enc_head(h)),
{
    crate::json::lemma_has_big_int_pairs_single("title"@, JsonVal::Str(h.title));
}

/// An encoded item row holds no over-wide integer.
pub proof fn lemma_enc_item_row_no_big_int(x: ItemListV)
    ensures
        !crate::json::has_big_int(spec_enc_item_row(x)),
{
    let pa = seq![("title"@, JsonVal::Str(x.title))];
    let pb = seq![("description"@, JsonVal::Str(x.description))];
    assert(seq![("title"@, JsonVal::Str(x.title)), ("description"@, JsonVal::Str(x.description))]
        =~= pa + pb);
    crate::json::lemma_has_big_int_pairs_single("title"@, JsonVal::Str(x.title));
    crate::json::lemma_has_big_int_pairs_single("description"@, JsonVal::Str(x.description));
    crate::json::lemma_has_big_int_pairs_concat(pa, pb);
}

/// An encoded item row sequence holds no over-wide integer.
pub proof fn lemma_enc_item_rows_no_big_int(s: Seq<ItemListV>)
    ensures
        !crate::json::has_big_int_seq(spec_enc_item_rows(s)),
{
    crate::json::lemma_has_big_int_seq_iff(spec_enc_item_rows(s));
    assert forall|i: int| 0 <= i < spec_enc_item_rows(s).len() implies !crate::json::has_big_int(
        #[trigger] spec_enc_item_rows(s)[i],
    ) by {
        lemma_enc_item_row_no_big_int(s[i]);
    }
}

/// An encoded summary row holds no over-wide integer.
pub proof fn lemma_enc_item_summary_no_big_int(x: ItemListSummaryV)
    ensures
        !crate::json::has_big_int(spec_enc_item_summary(x)),
{
    let pa = seq![("title"@, JsonVal::Str(x.title))];
    let pb = seq![("description"@, JsonVal::Str(x.description))];
    assert(seq![("title"@, JsonVal::Str(x.title)), ("description"@, JsonVal::Str(x.description))]
        =~= pa + pb);
    crate::json::lemma_has_big_int_pairs_single("title"@, JsonVal::Str(x.title));
    crate::json::lemma_has_big_int_pairs_single("description"@, JsonVal::Str(x.description));
    crate::json::lemma_has_big_int_pairs_concat(pa, pb);
}

/// An encoded image title holds no over-wide integer.
pub proof fn lemma_enc_image_title_no_big_int(x: ImageTitleV)
    ensures
        !crate::json::has_big_int(spec_enc_image_title(x)),
{
    let pa = seq![("title"@, JsonVal::Str(x.title))];
    let pb = opt_str_entry("description"@, x.description);
    let pc = opt_str_entry("imageUrl"@, x.image_url);
    crate::json::lemma_has_big_int_pairs_single("title"@, JsonVal::Str(x.title));
    crate::json::lemma_opt_str_entry_no_big_int("description"@, x.description);
    crate::json::lemma_opt_str_entry_no_big_int("imageUrl"@, x.image_url);
    crate::json::lemma_has_big_int_pairs_concat(pa, pb);
    crate::json::lemma_has_big_int_pairs_concat(pa + pb, pc);
}

/// An encoded basic card holds no over-wide integer.
pub proof fn lemma_enc_basic_content_no_big_int(c: BasicCardContentV)
    ensures
        !crate::json::has_big_int(spec_enc_basic_content(c)),
{
    crate::basics::lemma_enc_thumbnail_no_big_int(c.thumbnail);
    crate::buttons::lemma_enc_buttons_no_big_int(c.buttons);
    let pa = opt_str_entry("title"@, c.title);
    let pb = opt_str_entry("description"@, c.description);
    let pc = seq![("thumbnail"@, spec_enc_thumbnail(c.thumbnail))];
    let pd = nonempty_arr_entry("buttons"@, spec_enc_buttons(c.buttons));
    crate::json::lemma_opt_str_entry_no_big_int("title"@, c.title);
    crate::json::lemma_opt_str_entry_no_big_int("description"@, c.description);
    crate::json::lemma_has_big_int_pairs_single("thumbnail"@, spec_enc_thumbnail(c.thumbnail));
    crate::json::lemma_nonempty_arr_entry_big_int("buttons"@, spec_enc_buttons(c.buttons));
    crate::json::lemma_has_big_int_pairs_concat(pa, pb);
    crate::json::lemma_has_big_int_pairs_concat(pa + pb, pc);
    crate::json::lemma_has_big_int_pairs_concat(pa + pb + pc, pd);
}

/// An encoded commerce card holds no over-wide integer.
pub proof fn lemma_enc_commerce_content_no_big_int(c: CommerceCardContentV)
    ensures
        !crate::json::has_big_int(spec_enc_commerce_content(c)),
{
    crate::basics::lemma_enc_thumbnails_no_big_int(c.thumbnails);
    crate::buttons::lemma_enc_buttons_no_big_int(c.buttons);
    let pa = seq![("description"@, JsonVal::Str(c.description))];
    let pb = seq![("price"@, JsonVal::Int(c.price as int))];
    let pc = seq![("currency"@, JsonVal::Str(c.currency))];
    let p0 = seq![
        ("description"@, JsonVal::Str(c.description)),
        ("price"@, JsonVal::Int(c.price as int)),
        ("currency"@, JsonVal::Str(c.currency)),
    ];
    assert(p0 =~= pa + pb + pc);
    let pd = crate::json::opt_i32_entry("discount"@, c.discount);
    let pe = crate::json::opt_i32_entry("discountRate"@, c.discount_rate);
    let pf = crate::json::opt_i32_entry("discountedPrice"@, c.discounted_price);
    let pg = nonempty_arr_entry("thumbnails"@, crate::basics::spec_enc_thumbnails(c.thumbnails));
    let ph = nonempty_arr_entry("buttons"@, spec_enc_buttons(c.buttons));
    assert(p0 + pd + pe + pf + pg + ph =~= pa + pb + pc + pd + pe + pf + pg + ph);
    crate::json::lemma_has_big_int_pairs_single("description"@, JsonVal::Str(c.description));
    crate::json::lemma_has_big_int_pairs_single("price"@, JsonVal::Int(c.price as int));
    crate::json::lemma_has_big_int_pairs_single("currency"@, JsonVal::Str(c.currency));
    crate::json::lemma_opt_i32_entry_no_big_int("discount"@, c.discount);
    crate::json::lemma_opt_i32_entry_no_big_int("discountRate"@, c.discount_rate);
    crate::json::lemma_opt_i32_entry_no_big_int("discountedPrice"@, c.discounted_price);
    crate::json::lemma_nonempty_arr_entry_big_int(
        "thumbnails"@,
        crate::basics::spec_enc_thumbnails(c.thumbnails),
    );
    crate::json::lemma_nonempty_arr_entry_big_int("buttons"@, spec_enc_buttons(c.buttons));
    crate::json::lemma_has_big_int_pairs_concat(pa, pb);
    crate::json::lemma_has_big_int_pairs_concat(pa + pb, pc);
    crate::json::lemma_has_big_int_pairs_concat(pa + pb + pc, pd);
    crate::json::lemma_has_big_int_pairs_concat(pa + pb + pc + pd, pe);
    crate::json::lemma_has_big_int_pairs_concat(pa + pb + pc + pd + pe, pf);
    crate::json::lemma_has_big_int_pairs_concat(pa + pb + pc + pd + pe + pf, pg);
    crate::json::lemma_has_big_int_pairs_concat(pa + pb + pc + pd + pe + pf + pg, ph);
}

/// An encoded item card holds no over-wide integer.
pub proof fn lemma_enc_item_content_no_big_int(c: ItemCardContentV)
    ensures
        !crate::json::has_big_int(spec_enc_item_content(c)),
{
    if let Some(th) = c.thumbnail {
        crate::basics::lemma_enc_thumbnail_no_big_int(th);
    }
    if let Some(hd) = c.head {
        lemma_enc_head_no_big_int(hd);
    }
    if let Some(it) = c.image_title {
        lemma_enc_image_title_no_big_int(it);
    }
    lemma_enc_item_rows_no_big_int(c.item_list);
    if let Some(su) = c.item_list_summary {
        lemma_enc_item_summary_no_big_int(su);
    }
    crate::buttons::lemma_enc_buttons_no_big_int(c.buttons);
    let p0 = opt_val_entry("thumbnail"@, enc_opt_thumbnail(c.thumbnail));
    let p1 = opt_val_entry("head"@, enc_opt_head(c.head));
    let p2 = opt_val_entry("imageTitle"@, enc_opt_image_title(c.image_title));
    let p3 = seq![("itemList"@, JsonVal::Arr(spec_enc_item_rows(c.item_list)))];
    let p4 = opt_str_entry("itemListAlignment"@, c.item_list_alignment);
    let p5 = opt_val_entry("itemListSummary"@, enc_opt_item_summary(c.item_list_summary));
    let p6 = opt_str_entry("title"@, c.title);
    let p7 = opt_str_entry("description"@, c.description);
    let p8 = nonempty_arr_entry("buttons"@, spec_enc_buttons(c.buttons));
    let p9 = opt_str_entry("buttonLayout"@, c.button_layout);
    crate::json::lemma_opt_val_entry_big_int("thumbnail"@, enc_opt_thumbnail(c.thumbnail));
    crate::json::lemma_opt_val_entry_big_int("head"@, enc_opt_head(c.head));
    crate::json::lemma_opt_val_entry_big_int("imageTitle"@, enc_opt_image_title(c.image_title));
    crate::json::lemma_has_big_int_pairs_single(
        "itemList"@,
        JsonVal::Arr(spec_enc_item_rows(c.item_list)),
    );
    crate::json::lemma_opt_str_entry_no_big_int("itemListAlignment"@, c.item_list_alignment);
    crate::json::lemma_opt_val_entry_big_int(
        "itemListSummary"@,
        enc_opt_item_summary(c.item_list_summary),
    );
    crate::json::lemma_opt_str_entry_no_big_int("title"@, c.title);
    crate::json::lemma_opt_str_entry_no_big_int("description"@, c.description);
    crate::json::lemma_nonempty_arr_entry_big_int("buttons"@, spec_enc_buttons(c.buttons));
    crate::json::lemma_opt_str_entry_no_big_int("buttonLayout"@, c.button_layout);
    crate::json::lemma_has_big_int_pairs_concat(p0, p1);
    crate::json::lemma_has_big_int_pairs_concat(p0 + p1, p2);
    crate::json::lemma_has_big_int_pairs_concat(p0 + p1 + p2, p3);
    crate::json::lemma_has_big_int_pairs_concat(p0 + p1 + p2 + p3, p4);
    crate::json::lemma_has_big_int_pairs_concat(p0 + p1 + p2 + p3 + p4, p5);
    crate::json::lemma_has_big_int_pairs_concat(p0 + p1 + p2 + p3 + p4 + p5, p6);
    crate::json::lemma_has_big_int_pairs_concat(p0 + p1 + p2 + p3 + p4 + p5 + p6, p7);
    crate::json::lemma_has_big_int_pairs_concat(p0 + p1 + p2 + p3 + p4 + p5 + p6 + p7, p8);
    crate::json::lemma_has_big_int_pairs_concat(p0 + p1 + p2 + p3 + p4 + p5 + p6 + p7 + p8, p9);
}

/// An encoded card holds no over-wide integer.
pub proof fn lemma_enc_card_no_big_int(c: CardV)
    ensures
        !crate::json::has_big_int(spec_enc_card(c)),
{
    match c {
        CardV::Basic(b) => lemma_enc_basic_content_no_big_int(b),
        CardV::Commerce(co) => lemma_enc_commerce_content_no_big_int(co),
        CardV::Item(it) => lemma_enc_item_content_no_big_int(it),
    }
}

/// An encoded card sequence holds no over-wide integer.
pub proof fn lemma_enc_cards_no_big_int(s: Seq<CardV>)
    ensures
        !crate::json::has_big_int_seq(spec_enc_cards(s)),
{
    crate::json::lemma_has_big_int_seq_iff(spec_enc_cards(s));
    assert forall|i: int| 0 <= i < spec_enc_cards(s).len() implies !crate::json::has_big_int(
        #[trigger] spec_enc_cards(s)[i],
    ) by {
        lemma_enc_card_no_big_int(s[i]);
    }
}

} // verus!
