//! What the command line and the configuration file ask for, merged.
//!
//! A flag overrides the configuration file, which overrides the default. A
//! signature height overrides a scale, wherever each came from. Without a
//! signature from either source there is nothing to sign with.
//!
//! The numbers (percentages, millimetres, points) are left to the caller's
//! choice of type, so that this rule is stated apart from their arithmetic.

use vstd::prelude::*;

verus! {

/// The label the date is written after unless another is given.
pub const DEFAULT_DATE_LABEL: &'static str = "Datum:";

/// The label the signature is drawn after unless another is given.
pub const DEFAULT_SIGNATURE_LABEL: &'static str = "Klient/Bevollmächtigter/Betreuer:";

/// What one source (the command line, or the configuration file) sets.
pub struct Options<P, N> {
    pub signature: Option<P>,
    pub date_label: Option<String>,
    pub signature_label: Option<String>,
    pub date_format: Option<String>,
    pub scale: Option<N>,
    pub signature_height: Option<N>,
    pub date_font_size: Option<N>,
}

/// How large to draw the signature.
pub enum Size<N> {
    /// A percentage of the blank's width.
    Scale(N),
    /// A height in millimetres.
    Height(N),
}

/// Everything a run needs, every choice made.
pub struct Settings<P, N> {
    pub signature: P,
    pub date_label: String,
    pub signature_label: String,
    pub date_format: String,
    pub size: Size<N>,
    pub date_font_size: N,
}

/// Neither the command line nor the configuration file names a signature.
#[derive(Debug)]
pub struct MissingSignature;

/// The flag's value if it is set, or else the configuration file's.
pub open spec fn either<T>(flag: Option<T>, config: Option<T>) -> Option<T> {
    match flag {
        Some(value) => Some(value),
        None => config,
    }
}

/// A text setting, with its default.
pub open spec fn text_or(value: Option<String>, default: Seq<char>) -> Seq<char> {
    match value {
        Some(text) => text@,
        None => default,
    }
}

fn pick<T>(flag: Option<T>, config: Option<T>) -> (r: Option<T>)
    ensures
        r == either(flag, config),
{
    match flag {
        Some(value) => Some(value),
        None => config,
    }
}

fn text_setting(flag: Option<String>, config: Option<String>, default: &str) -> (r: String)
    ensures
        r@ == text_or(either(flag, config), default@),
{
    match pick(flag, config) {
        Some(text) => text,
        None => default.to_string(),
    }
}

/// The settings for a run: each one from the command line if it sets it,
/// else from the configuration file, else its default; the size by height
/// if either source gives one, else by scale.
pub fn resolve<P, N>(cli: Options<P, N>, config: Options<P, N>, default_scale: N, default_date_font_size: N) -> (r: Result<Settings<P, N>, MissingSignature>)
    ensures
        match either(cli.signature, config.signature) {
            None => r is Err,
            Some(signature) => r matches Ok(settings) && {
                &&& settings.signature == signature
                &&& settings.date_label@ == text_or(either(cli.date_label, config.date_label), DEFAULT_DATE_LABEL@)
                &&& settings.signature_label@ == text_or(either(cli.signature_label, config.signature_label), DEFAULT_SIGNATURE_LABEL@)
                &&& settings.date_format@ == text_or(either(cli.date_format, config.date_format), crate::date::DEFAULT_DATE_FORMAT@)
                &&& settings.size == match either(cli.signature_height, config.signature_height) {
                    Some(millimetres) => Size::Height(millimetres),
                    None => Size::Scale(either(cli.scale, config.scale).unwrap_or(default_scale)),
                }
                &&& settings.date_font_size == either(cli.date_font_size, config.date_font_size).unwrap_or(default_date_font_size)
            },
        },
{
    let signature = match pick(cli.signature, config.signature) {
        Some(signature) => signature,
        None => return Err(MissingSignature),
    };
    let size = match pick(cli.signature_height, config.signature_height) {
        Some(millimetres) => Size::Height(millimetres),
        None => Size::Scale(
            match pick(cli.scale, config.scale) {
                Some(percent) => percent,
                None => default_scale,
            },
        ),
    };
    let date_font_size = match pick(cli.date_font_size, config.date_font_size) {
        Some(points) => points,
        None => default_date_font_size,
    };
    Ok(Settings {
        signature,
        date_label: text_setting(cli.date_label, config.date_label, DEFAULT_DATE_LABEL),
        signature_label: text_setting(cli.signature_label, config.signature_label, DEFAULT_SIGNATURE_LABEL),
        date_format: text_setting(cli.date_format, config.date_format, crate::date::DEFAULT_DATE_FORMAT),
        size,
        date_font_size,
    })
}

} // verus!
