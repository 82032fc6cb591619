//! Values exchanged between the plug-in and its web-view editor.
use vstd::prelude::*;

verus! {

/// An impulse response as the editor hands it over: a file name and the raw
/// bytes of the WAV file.
#[derive(Clone, Debug)]
pub struct IrData {
    pub name: String,
    pub raw_bytes: Vec<u8>,
}

/// The content of an [`IrData`].
pub struct IrDataView {
    pub name: Seq<char>,
    pub raw_bytes: Seq<u8>,
}

impl View for IrData {
    type V = IrDataView;

    open spec fn view(&self) -> IrDataView {
        IrDataView { name: self.name@, raw_bytes: self.raw_bytes@ }
    }
}

/// The plug-in's parameters as the editor names them.
#[derive(Clone, Copy, Debug, PartialEq, Eq, Structural)]
pub enum Parameters {
    Gain,
    DryWet,
    LowpassEnabled,
    LowpassFreq,
    LowpassQ,
    BellEnabled,
    BellFreq,
    BellQ,
    BellGain,
    HighpassEnabled,
    HighpassFreq,
    HighpassQ,
}

/// Whether a parameter holds a number or an on/off switch.
#[derive(Clone, Copy, Debug, PartialEq, Eq, Structural)]
pub enum ParamKind {
    Float,
    Bool,
}

/// The switches are the three filters' `*Enabled` parameters; every other
/// parameter is a number.
pub open spec fn is_switch(p: Parameters) -> bool {
    p == Parameters::LowpassEnabled || p == Parameters::BellEnabled || p == Parameters::HighpassEnabled
}

/// Whether the value the editor sends for `p` is a number or a boolean.
pub fn param_kind(p: Parameters) -> (r: ParamKind)
    ensures
        r == (if is_switch(p) {
            ParamKind::Bool
        } else {
            ParamKind::Float
        }),
{
    match p {
        Parameters::LowpassEnabled | Parameters::BellEnabled | Parameters::HighpassEnabled => ParamKind::Bool,
        Parameters::Gain | Parameters::DryWet | Parameters::LowpassFreq | Parameters::LowpassQ
        | Parameters::BellFreq | Parameters::BellQ | Parameters::BellGain | Parameters::HighpassFreq
        | Parameters::HighpassQ => ParamKind::Float,
    }
}

} // verus!
