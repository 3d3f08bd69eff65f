//! Every component of the library under one roof.

pub use crate::basics::{
    Link, LinkV, ListItem, ListItemV, QuickReply, QuickReplyV, Title, TitleV, ThumbNail,
    ThumbNailV, Template, TemplateV, Types, TypesV, Outputs, OutputsV, Carousel, CarouselContent,
    CarouselContentV, CarouselHeader, CarouselHeaderV, ListCard, ListCardContent, ListCardContentV,
    SimpleText, SimpleTextContent, SimpleTextContentV, SimpleImage, SimpleImageContent,
    SimpleImageContentV,
};
pub use crate::buttons::{Button, ButtonV, ButtonType, buttons_to_string, buttons_from_str};
pub use crate::cards::{
    Card, CardV, BasicCard, BasicCardContent, BasicCardContentV, CommerceCard,
    CommerceCardContent, CommerceCardContentV, ItemCard, ItemCardContent, ItemCardContentV, Head,
    HeadV, ImageTitle, ImageTitleV, ItemList, ItemListV, ItemListSummary, ItemListSummaryV,
};
pub use crate::json::{DecodeError, JsonVal, JsonValue};
