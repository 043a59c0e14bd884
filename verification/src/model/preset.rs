//! A preset: the texts, images and buttons of one presence.
use vstd::prelude::*;

verus! {

/// The value of an optional text, as a sequence of characters.
pub open spec fn text_view(t: Option<String>) -> Option<Seq<char>> {
    match t {
        Some(s) => Some(s@),
        None => None,
    }
}

/// The images of a presence and their hover texts.
pub struct Assets {
    pub large_image: Option<String>,
    pub large_text: Option<String>,
    pub small_image: Option<String>,
    pub small_text: Option<String>,
}

/// A link button: its label and the url it opens.
pub struct Button {
    pub label: String,
    pub url: String,
}

/// One preset file.
pub struct Preset {
    pub state: Option<String>,
    pub details: Option<String>,
    pub assets: Option<Assets>,
    pub buttons: Option<Vec<Button>>,
}

/// What an `Assets` holds.
#[verifier::ext_equal]
pub struct AssetsView {
    pub large_image: Option<Seq<char>>,
    pub large_text: Option<Seq<char>>,
    pub small_image: Option<Seq<char>>,
    pub small_text: Option<Seq<char>>,
}

/// What a `Button` holds.
#[verifier::ext_equal]
pub struct ButtonView {
    pub label: Seq<char>,
    pub url: Seq<char>,
}

/// What a `Preset` holds.
#[verifier::ext_equal]
pub struct PresetView {
    pub state: Option<Seq<char>>,
    pub details: Option<Seq<char>>,
    pub assets: Option<AssetsView>,
    pub buttons: Option<Seq<ButtonView>>,
}

impl View for Assets {
    type V = AssetsView;

    open spec fn view(&self) -> AssetsView {
        AssetsView {
            large_image: text_view(self.large_image),
            large_text: text_view(self.large_text),
            small_image: text_view(self.small_image),
            small_text: text_view(self.small_text),
        }
    }
}

impl View for Button {
    type V = ButtonView;

    open spec fn view(&self) -> ButtonView {
        ButtonView { label: self.label@, url: self.url@ }
    }
}

/// The values of a list of buttons.
pub open spec fn buttons_view(v: Seq<Button>) -> Seq<ButtonView> {
    v.map_values(|b: Button| b@)
}

/// The value of optional assets.
pub open spec fn assets_view(a: Option<Assets>) -> Option<AssetsView> {
    match a {
        Some(x) => Some(x@),
        None => None,
    }
}

impl View for Preset {
    type V = PresetView;

    open spec fn view(&self) -> PresetView {
        PresetView {
            state: text_view(self.state),
            details: text_view(self.details),
            assets: assets_view(self.assets),
            buttons: match self.buttons {
                Some(v) => Some(buttons_view(v@)),
                None => None,
            },
        }
    }
}

} // verus!
