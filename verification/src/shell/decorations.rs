//! Server-side window decorations: title bar look and the traffic-light
//! buttons.

use vstd::prelude::*;

verus! {

#[derive(Debug, Clone, Copy, PartialEq, Eq, Structural)]
pub enum DecorationStyle {
    /// No decorations at all.
    NoDecoration,
    Client,
    Server,
}

impl Default for DecorationStyle {
    fn default() -> (s: Self)
        ensures
            s == DecorationStyle::Server,
    {
        DecorationStyle::Server
    }
}

/// RGBA colours of the title bar and its buttons.
#[derive(Debug, Clone, Copy)]
pub struct DecorationColors {
    pub background: [u8; 4],
    pub title: [u8; 4],
    pub title_inactive: [u8; 4],
    pub button_close: [u8; 4],
    pub button_minimize: [u8; 4],
    pub button_maximize: [u8; 4],
}

impl DecorationColors {
    /// The default palette: a translucent dark bar, white title, grey
    /// inactive title, red, amber and green buttons.
    pub open spec fn is_default(&self) -> bool {
        &&& self.background@ == seq![50u8, 50, 50, 200]
        &&& self.title@ == seq![255u8, 255, 255, 255]
        &&& self.title_inactive@ == seq![180u8, 180, 180, 255]
        &&& self.button_close@ == seq![255u8, 95, 86, 255]
        &&& self.button_minimize@ == seq![255u8, 190, 40, 255]
        &&& self.button_maximize@ == seq![40u8, 205, 65, 255]
    }
}

impl Default for DecorationColors {
    fn default() -> (c: Self)
        ensures
            c.is_default(),
    {
        let c = DecorationColors {
            background: [50, 50, 50, 200],
            title: [255, 255, 255, 255],
            title_inactive: [180, 180, 180, 255],
            button_close: [255, 95, 86, 255],
            button_minimize: [255, 190, 40, 255],
            button_maximize: [40, 205, 65, 255],
        };
        assert(c.background@ =~= seq![50u8, 50, 50, 200]);
        assert(c.title@ =~= seq![255u8, 255, 255, 255]);
        assert(c.title_inactive@ =~= seq![180u8, 180, 180, 255]);
        assert(c.button_close@ =~= seq![255u8, 95, 86, 255]);
        assert(c.button_minimize@ =~= seq![255u8, 190, 40, 255]);
        assert(c.button_maximize@ =~= seq![40u8, 205, 65, 255]);
        c
    }
}

#[derive(Debug, Clone, Copy)]
pub struct DecorationConfig {
    pub style: DecorationStyle,
    pub height: u32,
    /// Top-left, top-right, bottom-right, bottom-left radii.
    pub border_radius: (u32, u32, u32, u32),
    pub title_font_size: u32,
    pub colors: DecorationColors,
}

impl DecorationConfig {
    /// Server-side, 38 pixels high, rounded top corners of 12 pixels,
    /// 13-point title, default colours.
    pub open spec fn is_default(&self) -> bool {
        &&& self.style == DecorationStyle::Server
        &&& self.height == 38
        &&& self.border_radius == (12u32, 12u32, 0u32, 0u32)
        &&& self.title_font_size == 13
        &&& self.colors.is_default()
    }
}

impl Default for DecorationConfig {
    fn default() -> (c: Self)
        ensures
            c.is_default(),
    {
        DecorationConfig {
            style: DecorationStyle::Server,
            height: 38,
            border_radius: (12, 12, 0, 0),
            title_font_size: 13,
            colors: DecorationColors::default(),
        }
    }
}

#[derive(Debug, Clone, Copy, PartialEq, Eq, Structural)]
pub enum TrafficLightPosition {
    Left,
    Right,
}

#[derive(Debug, Clone, Copy, PartialEq, Eq, Structural)]
pub enum TrafficLight {
    Close,
    Minimize,
    Maximize,
}

#[derive(Debug, Clone)]
pub struct WindowDecorations {
    pub config: DecorationConfig,
    pub hovered_button: Option<TrafficLight>,
}

impl WindowDecorations {
    /// Default configuration, no button hovered.
    pub fn new() -> (d: Self)
        ensures
            d.config.is_default(),
            d.hovered_button is None,
    {
        WindowDecorations { config: DecorationConfig::default(), hovered_button: None }
    }

    pub fn set_hovered_button(&mut self, button: Option<TrafficLight>)
        ensures
            final(self).hovered_button == button,
            final(self).config == old(self).config,
    {
        self.hovered_button = button;
    }
}

impl Default for WindowDecorations {
    fn default() -> (d: Self)
        ensures
            d.config.is_default(),
            d.hovered_button is None,
    {
        Self::new()
    }
}

} // verus!
