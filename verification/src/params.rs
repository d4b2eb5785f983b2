use vstd::prelude::*;

verus! {

/// The effect's parameters, in the order in which the host lists them.
#[derive(Eq, PartialEq, Hash, Clone, Copy, Debug, Structural)]
pub enum Params {
    Style,
    StartPoint,
    EndPoint,
    StartColor,
    EndColor,
    MidsStart,
    Mid1Enable,
    Mid1Color,
    Mid1Pos,
    Mid2Enable,
    Mid2Color,
    Mid2Pos,
    Mid3Enable,
    Mid3Color,
    Mid3Pos,
    MidsEnd,
    Reverse,
    Repeat,
    Mirror,
    Dither,
    Opacity,
}

/// Popup values of the Style parameter (the host counts popup entries from 1).
pub const STYLE_LINEAR: i32 = 1;
pub const STYLE_RADIAL: i32 = 2;
pub const STYLE_ANGULAR: i32 = 3;
pub const STYLE_REFLECTED: i32 = 4;
pub const STYLE_DIAMOND: i32 = 5;

/// The shape of the gradient field.
#[derive(Clone, Copy, Debug, PartialEq, Eq, Structural)]
pub enum Style {
    Linear,
    Radial,
    Angular,
    Reflected,
    Diamond,
}

/// The style that a popup value selects: every value outside the known
/// entries falls back to `Linear`.
pub open spec fn popup_style(value: i32) -> Style {
    if value == STYLE_RADIAL {
        Style::Radial
    } else if value == STYLE_ANGULAR {
        Style::Angular
    } else if value == STYLE_REFLECTED {
        Style::Reflected
    } else if value == STYLE_DIAMOND {
        Style::Diamond
    } else {
        Style::Linear
    }
}

/// The popup value that shows a style.
pub open spec fn style_popup(style: Style) -> i32 {
    match style {
        Style::Linear => STYLE_LINEAR,
        Style::Radial => STYLE_RADIAL,
        Style::Angular => STYLE_ANGULAR,
        Style::Reflected => STYLE_REFLECTED,
        Style::Diamond => STYLE_DIAMOND,
    }
}

impl Style {
    /// Decodes the Style popup's value.
    pub fn from_popup(value: i32) -> (style: Style)
        ensures
            style == popup_style(value),
            value == 2 ==> style == Style::Radial,
            value == 3 ==> style == Style::Angular,
            value == 4 ==> style == Style::Reflected,
            value == 5 ==> style == Style::Diamond,
            !(2 <= value <= 5) ==> style == Style::Linear,
    {
        if value == STYLE_RADIAL {
            Style::Radial
        } else if value == STYLE_ANGULAR {
            Style::Angular
        } else if value == STYLE_REFLECTED {
            Style::Reflected
        } else if value == STYLE_DIAMOND {
            Style::Diamond
        } else {
            Style::Linear
        }
    }

    /// The popup value of this style.
    pub fn to_popup(self) -> (value: i32)
        ensures
            value == style_popup(self),
            self == Style::Linear ==> value == 1,
            self == Style::Radial ==> value == 2,
            self == Style::Angular ==> value == 3,
            self == Style::Reflected ==> value == 4,
            self == Style::Diamond ==> value == 5,
    {
        match self {
            Style::Linear => STYLE_LINEAR,
            Style::Radial => STYLE_RADIAL,
            Style::Angular => STYLE_ANGULAR,
            Style::Reflected => STYLE_REFLECTED,
            Style::Diamond => STYLE_DIAMOND,
        }
    }
}

/// Encoding a style as a popup value and decoding it again gives the style
/// back, and every such value lies among the popup's entries `1..=5`.
pub proof fn lemma_style_popup_roundtrip(style: Style)
    ensures
        popup_style(style_popup(style)) == style,
        STYLE_LINEAR <= style_popup(style) <= STYLE_DIAMOND,
{
}

/// Number of optional stops between the start and the end colour.
pub const MID_STOP_COUNT: usize = 3;

/// The three parameters of one optional stop.
#[derive(Clone, Copy, Debug, PartialEq, Eq, Structural)]
pub struct MidStopParams {
    pub enable: Params,
    pub color: Params,
    pub position: Params,
}

/// Which parameters belong to optional stop `i`.
pub open spec fn mid_stop_params_spec(i: int) -> MidStopParams {
    if i == 0 {
        MidStopParams { enable: Params::Mid1Enable, color: Params::Mid1Color, position: Params::Mid1Pos }
    } else if i == 1 {
        MidStopParams { enable: Params::Mid2Enable, color: Params::Mid2Color, position: Params::Mid2Pos }
    } else {
        MidStopParams { enable: Params::Mid3Enable, color: Params::Mid3Color, position: Params::Mid3Pos }
    }
}

/// The enable, colour and position parameters of optional stop `i`.
pub fn mid_stop_params(i: usize) -> (p: MidStopParams)
    requires
        i < MID_STOP_COUNT,
    ensures
        p == mid_stop_params_spec(i as int),
        i == 0 ==> p == (MidStopParams {
            enable: Params::Mid1Enable,
            color: Params::Mid1Color,
            position: Params::Mid1Pos,
        }),
        i == 1 ==> p == (MidStopParams {
            enable: Params::Mid2Enable,
            color: Params::Mid2Color,
            position: Params::Mid2Pos,
        }),
        i == 2 ==> p == (MidStopParams {
            enable: Params::Mid3Enable,
            color: Params::Mid3Color,
            position: Params::Mid3Pos,
        }),
{
    if i == 0 {
        MidStopParams { enable: Params::Mid1Enable, color: Params::Mid1Color, position: Params::Mid1Pos }
    } else if i == 1 {
        MidStopParams { enable: Params::Mid2Enable, color: Params::Mid2Color, position: Params::Mid2Pos }
    } else {
        MidStopParams { enable: Params::Mid3Enable, color: Params::Mid3Color, position: Params::Mid3Pos }
    }
}

/// An 8-bit colour without alpha.
#[derive(Clone, Copy, Debug, PartialEq, Eq, Structural)]
pub struct Rgb8 {
    pub red: u8,
    pub green: u8,
    pub blue: u8,
}

/// Default of an optional stop: its position in percent along the axis and
/// its colour (red at a quarter, green at half way, blue at three quarters).
pub open spec fn mid_stop_default_spec(i: int) -> (u8, Rgb8) {
    if i == 0 {
        (25u8, Rgb8 { red: 255, green: 0, blue: 0 })
    } else if i == 1 {
        (50u8, Rgb8 { red: 0, green: 255, blue: 0 })
    } else {
        (75u8, Rgb8 { red: 0, green: 0, blue: 255 })
    }
}

/// The default position (percent) and colour of optional stop `i`.
pub fn mid_stop_default(i: usize) -> (d: (u8, Rgb8))
    requires
        i < MID_STOP_COUNT,
    ensures
        d == mid_stop_default_spec(i as int),
        i == 0 ==> d == (25u8, Rgb8 { red: 255, green: 0, blue: 0 }),
        i == 1 ==> d == (50u8, Rgb8 { red: 0, green: 255, blue: 0 }),
        i == 2 ==> d == (75u8, Rgb8 { red: 0, green: 0, blue: 255 }),
{
    if i == 0 {
        (25u8, Rgb8 { red: 255, green: 0, blue: 0 })
    } else if i == 1 {
        (50u8, Rgb8 { red: 0, green: 255, blue: 0 })
    } else {
        (75u8, Rgb8 { red: 0, green: 0, blue: 255 })
    }
}

/// All parameters named by the optional-stop slots: the nine parameters
/// inside the "Mid Stops" group.
pub open spec fn is_mid_stop_param(p: Params) -> bool {
    p == Params::Mid1Enable || p == Params::Mid1Color || p == Params::Mid1Pos || p == Params::Mid2Enable
        || p == Params::Mid2Color || p == Params::Mid2Pos || p == Params::Mid3Enable || p
        == Params::Mid3Color || p == Params::Mid3Pos
}

/// Each slot names its own three parameters: within a slot the enable,
/// colour and position parameters differ, no parameter belongs to two
/// slots, and slot `i` uses the parameters numbered `i + 1`.
pub proof fn lemma_mid_stop_slots_distinct(i: int, j: int)
    requires
        0 <= i < 3,
        0 <= j < 3,
    ensures
        mid_stop_params_spec(i).enable != mid_stop_params_spec(i).color,
        mid_stop_params_spec(i).enable != mid_stop_params_spec(i).position,
        mid_stop_params_spec(i).color != mid_stop_params_spec(i).position,
        is_mid_stop_param(mid_stop_params_spec(i).enable),
        is_mid_stop_param(mid_stop_params_spec(i).color),
        is_mid_stop_param(mid_stop_params_spec(i).position),
        i != j ==> {
            let a = mid_stop_params_spec(i);
            let b = mid_stop_params_spec(j);
            &&& a.enable != b.enable && a.enable != b.color && a.enable != b.position
            &&& a.color != b.enable && a.color != b.color && a.color != b.position
            &&& a.position != b.enable && a.position != b.color && a.position != b.position
        },
        i == 0 ==> mid_stop_params_spec(i) == (MidStopParams {
            enable: Params::Mid1Enable,
            color: Params::Mid1Color,
            position: Params::Mid1Pos,
        }),
        i == 1 ==> mid_stop_params_spec(i) == (MidStopParams {
            enable: Params::Mid2Enable,
            color: Params::Mid2Color,
            position: Params::Mid2Pos,
        }),
        i == 2 ==> mid_stop_params_spec(i) == (MidStopParams {
            enable: Params::Mid3Enable,
            color: Params::Mid3Color,
            position: Params::Mid3Pos,
        }),
{
}

} // verus!
