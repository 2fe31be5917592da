//! The classes of ports: what may be connected to what.

use vstd::prelude::*;
use crate::color::{color_channels, color_from_rgb};
use crate::state::MyGraphState;

verus! {

/// The class of a port. Two ports can be joined where their classes agree;
/// a class has a name and a colour for display and no behaviour of its own.
#[derive(Clone, Copy, Debug, PartialEq, Eq, Structural, Hash)]
pub enum MyDataType {
    Scalar,
    Vec2,
    Widget,
    Text,
}

impl MyDataType {
    /// Red, green and blue of the colour in which ports of this class are drawn.
    pub open spec fn rgb(self) -> (u8, u8, u8) {
        match self {
            MyDataType::Scalar => (38u8, 109u8, 211u8),
            MyDataType::Vec2 => (238u8, 207u8, 109u8),
            MyDataType::Widget => (38u8, 255u8, 150u8),
            MyDataType::Text => (124u8, 25u8, 180u8),
        }
    }

    /// The name shown for this class.
    pub open spec fn display_name(self) -> Seq<char> {
        match self {
            MyDataType::Scalar => "scalar"@,
            MyDataType::Vec2 => "2d vector"@,
            MyDataType::Widget => "Widget"@,
            MyDataType::Text => "Text"@,
        }
    }

    /// The opaque colour in which ports of this class are drawn.
    pub fn data_type_color(&self, user_state: &mut MyGraphState) -> (c: egui::Color32)
        ensures
            color_channels(c) == (self.rgb().0, self.rgb().1, self.rgb().2, 255u8),
            *final(user_state) == *old(user_state),
    {
        match self {
            MyDataType::Scalar => color_from_rgb(38, 109, 211),
            MyDataType::Vec2 => color_from_rgb(238, 207, 109),
            MyDataType::Widget => color_from_rgb(38, 255, 150),
            MyDataType::Text => color_from_rgb(124, 25, 180),
        }
    }

    /// The name shown for this class.
    pub fn name(&self) -> (r: &'static str)
        ensures
            r@ == self.display_name(),
    {
        match self {
            MyDataType::Scalar => "scalar",
            MyDataType::Vec2 => "2d vector",
            MyDataType::Widget => "Widget",
            MyDataType::Text => "Text",
        }
    }
}

} // verus!
