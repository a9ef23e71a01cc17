use vstd::prelude::*;

verus! {

/// How a button is drawn.
#[derive(Clone, Copy, Debug, PartialEq, Eq, Structural)]
pub enum ButtonStyle {
    Primary,
    Secondary,
    Success,
    Danger,
}

/// A button under a message: what the platform is asked to draw, as plain values.
#[derive(Debug)]
pub struct Button {
    pub custom_id: String,
    pub label: String,
    pub emoji: Option<String>,
    pub style: ButtonStyle,
    pub disabled: bool,
}

/// What a `Button` holds, with its texts as sequences of characters.
pub struct ButtonView {
    pub custom_id: Seq<char>,
    pub label: Seq<char>,
    pub emoji: Option<Seq<char>>,
    pub style: ButtonStyle,
    pub disabled: bool,
}

impl View for Button {
    type V = ButtonView;

    open spec fn view(&self) -> ButtonView {
        ButtonView {
            custom_id: self.custom_id@,
            label: self.label@,
            emoji: match self.emoji {
                Some(e) => Some(e@),
                None => None,
            },
            style: self.style,
            disabled: self.disabled,
        }
    }
}

/// The views of a row of buttons, in order.
pub open spec fn button_views(row: Seq<Button>) -> Seq<ButtonView> {
    row.map_values(|b: Button| b@)
}

/// The views of rows of buttons, in order.
pub open spec fn row_views(rows: Seq<Vec<Button>>) -> Seq<Seq<ButtonView>> {
    rows.map_values(|row: Vec<Button>| button_views(row@))
}

/// One titled entry of an embed.
#[derive(Debug)]
pub struct EmbedField {
    pub name: String,
    pub value: String,
    pub inline: bool,
}

/// What an `EmbedField` holds, with its texts as sequences of characters.
pub struct EmbedFieldView {
    pub name: Seq<char>,
    pub value: Seq<char>,
    pub inline: bool,
}

impl View for EmbedField {
    type V = EmbedFieldView;

    open spec fn view(&self) -> EmbedFieldView {
        EmbedFieldView { name: self.name@, value: self.value@, inline: self.inline }
    }
}

/// The views of a run of fields, in order.
pub open spec fn field_views(fields: Seq<EmbedField>) -> Seq<EmbedFieldView> {
    fields.map_values(|f: EmbedField| f@)
}

/// A framed block of a message: a title, a line of text, and titled entries.
#[derive(Debug)]
pub struct Embed {
    pub title: String,
    pub description: String,
    pub fields: Vec<EmbedField>,
}

/// What an `Embed` holds, with its texts as sequences of characters.
pub struct EmbedView {
    pub title: Seq<char>,
    pub description: Seq<char>,
    pub fields: Seq<EmbedFieldView>,
}

impl View for Embed {
    type V = EmbedView;

    open spec fn view(&self) -> EmbedView {
        EmbedView {
            title: self.title@,
            description: self.description@,
            fields: field_views(self.fields@),
        }
    }
}

} // verus!
