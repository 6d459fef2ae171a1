//! Window effects settings: blur, shadow, animation and transition choices,
//! colour adjustments and corner radii. Floating-point settings are held as
//! the bit patterns of their `f32` values; the easing curves and animation
//! stepping that compute with them live with the program.

use vstd::prelude::*;

verus! {

#[derive(Debug, Clone, Copy, PartialEq, Eq, Structural)]
pub enum BlurEffect {
    NoBlur,
    Behind,
    Vibe,
}

impl Default for BlurEffect {
    fn default() -> (b: Self)
        ensures
            b == BlurEffect::NoBlur,
    {
        BlurEffect::NoBlur
    }
}

/// A drop shadow; offsets, radii and opacity are `f32` bit patterns.
#[derive(Debug, Clone, Copy, PartialEq, Eq, Structural)]
pub struct ShadowStyle {
    pub enabled: bool,
    pub offset_x: u32,
    pub offset_y: u32,
    pub blur_radius: u32,
    pub spread_radius: u32,
    pub opacity: u32,
}

/// Bit patterns of the `f32` values used by the defaults.
pub const F32_ZERO: u32 = 0x0000_0000;
pub const F32_ONE: u32 = 0x3f80_0000;
pub const F32_FOUR: u32 = 0x4080_0000;
pub const F32_TWELVE: u32 = 0x4140_0000;
pub const F32_QUARTER: u32 = 0x3e80_0000;

/// The default shadow: enabled, 4 below, blurred by 12, a quarter opaque.
pub open spec fn default_shadow() -> ShadowStyle {
    ShadowStyle {
        enabled: true,
        offset_x: F32_ZERO,
        offset_y: F32_FOUR,
        blur_radius: F32_TWELVE,
        spread_radius: F32_ZERO,
        opacity: F32_QUARTER,
    }
}

impl Default for ShadowStyle {
    fn default() -> (s: Self)
        ensures
            s == default_shadow(),
    {
        ShadowStyle {
            enabled: true,
            offset_x: F32_ZERO,
            offset_y: F32_FOUR,
            blur_radius: F32_TWELVE,
            spread_radius: F32_ZERO,
            opacity: F32_QUARTER,
        }
    }
}

/// An easing curve; curve parameters are `f32` bit patterns.
#[derive(Debug, Clone, Copy, PartialEq, Eq, Structural)]
pub enum EasingFunction {
    Linear,
    EaseIn,
    EaseOut,
    EaseInOut,
    CubicBezier(u32, u32, u32, u32),
    Spring { mass: u32, stiffness: u32, damping: u32 },
}

#[derive(Debug, Clone, Copy, PartialEq, Eq, Structural)]
pub struct AnimationConfig {
    pub enabled: bool,
    pub duration_ms: u32,
    pub easing: EasingFunction,
}

impl Default for AnimationConfig {
    /// Enabled, 200 ms, ease-out.
    fn default() -> (a: Self)
        ensures
            a == (AnimationConfig { enabled: true, duration_ms: 200, easing: EasingFunction::EaseOut }),
    {
        AnimationConfig { enabled: true, duration_ms: 200, easing: EasingFunction::EaseOut }
    }
}

#[derive(Debug, Clone, Copy, PartialEq, Eq, Structural)]
pub enum TransitionType {
    NoTransition,
    Fade,
    Slide,
    Scale,
    FadeAndSlide,
    FadeAndScale,
}

impl Default for TransitionType {
    fn default() -> (t: Self)
        ensures
            t == TransitionType::NoTransition,
    {
        TransitionType::NoTransition
    }
}

/// Effects of one window; brightness, saturation and contrast are `f32`
/// bit patterns.
#[derive(Debug, Clone, Copy)]
pub struct WindowEffects {
    pub blur: BlurEffect,
    pub shadow: ShadowStyle,
    pub animations: AnimationConfig,
    pub transition: TransitionType,
    pub brightness: u32,
    pub saturation: u32,
    pub contrast: u32,
    pub corner_radius: (u32, u32, u32, u32),
}

/// The default effects: no blur, the default shadow and animation, no
/// transition, neutral colours, 12-pixel corners.
pub open spec fn default_effects() -> WindowEffects {
    WindowEffects {
        blur: BlurEffect::NoBlur,
        shadow: default_shadow(),
        animations: AnimationConfig { enabled: true, duration_ms: 200, easing: EasingFunction::EaseOut },
        transition: TransitionType::NoTransition,
        brightness: F32_ONE,
        saturation: F32_ONE,
        contrast: F32_ONE,
        corner_radius: (12, 12, 12, 12),
    }
}

impl Default for WindowEffects {
    fn default() -> (e: Self)
        ensures
            e == default_effects(),
    {
        WindowEffects {
            blur: BlurEffect::default(),
            shadow: ShadowStyle::default(),
            animations: AnimationConfig::default(),
            transition: TransitionType::default(),
            brightness: F32_ONE,
            saturation: F32_ONE,
            contrast: F32_ONE,
            corner_radius: (12, 12, 12, 12),
        }
    }
}

impl WindowEffects {
    pub fn new() -> (e: Self)
        ensures
            e == default_effects(),
    {
        Self::default()
    }

    pub fn with_blur(self, blur: BlurEffect) -> (e: Self)
        ensures
            e == (WindowEffects { blur, ..self }),
    {
        let mut e = self;
        e.blur = blur;
        e
    }

    pub fn with_shadow(self, shadow: ShadowStyle) -> (e: Self)
        ensures
            e == (WindowEffects { shadow, ..self }),
    {
        let mut e = self;
        e.shadow = shadow;
        e
    }

    pub fn with_corner_radius(self, radius: (u32, u32, u32, u32)) -> (e: Self)
        ensures
            e == (WindowEffects { corner_radius: radius, ..self }),
    {
        let mut e = self;
        e.corner_radius = radius;
        e
    }

    pub fn set_blur(&mut self, blur: BlurEffect)
        ensures
            *final(self) == (WindowEffects { blur, ..*old(self) }),
    {
        self.blur = blur;
    }

    /// Switch the shadow on or off, keeping its style.
    pub fn set_shadow(&mut self, enabled: bool)
        ensures
            *final(self) == (WindowEffects {
                shadow: ShadowStyle { enabled, ..old(self).shadow },
                ..*old(self)
            }),
    {
        self.shadow.enabled = enabled;
    }
}

} // verus!
