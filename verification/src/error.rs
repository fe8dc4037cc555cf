//! Errors caused by malformed DSP inputs or failed safety constraints.

use vstd::prelude::*;
use crate::text::{decimal, push_decimal, push_str};

verus! {

#[derive(Debug, Clone, PartialEq)]
pub enum DspError {
    EmptyInput(&'static str),
    InvalidArgument(String),
    ShapeMismatch(String),
    NonFinite { context: &'static str, index: usize },
    TargetParse { line: usize, message: String },
    CalibrationParse { line: usize, message: String },
}

/// A [`DspError`] as a value.
pub enum DspErrorView {
    EmptyInput(Seq<char>),
    InvalidArgument(Seq<char>),
    ShapeMismatch(Seq<char>),
    NonFinite { context: Seq<char>, index: nat },
    TargetParse { line: nat, message: Seq<char> },
    CalibrationParse { line: nat, message: Seq<char> },
}

impl View for DspError {
    type V = DspErrorView;

    open spec fn view(&self) -> DspErrorView {
        match self {
            DspError::EmptyInput(context) => DspErrorView::EmptyInput(context@),
            DspError::InvalidArgument(message) => DspErrorView::InvalidArgument(message@),
            DspError::ShapeMismatch(message) => DspErrorView::ShapeMismatch(message@),
            DspError::NonFinite { context, index } => DspErrorView::NonFinite { context: context@, index: *index as nat },
            DspError::TargetParse { line, message } => DspErrorView::TargetParse { line: *line as nat, message: message@ },
            DspError::CalibrationParse { line, message } => DspErrorView::CalibrationParse {
                line: *line as nat,
                message: message@,
            },
        }
    }
}

/// The message an error is displayed with.
pub open spec fn dsp_error_text(error: DspErrorView) -> Seq<char> {
    match error {
        DspErrorView::EmptyInput(context) => context + " must not be empty"@,
        DspErrorView::InvalidArgument(message) => message,
        DspErrorView::ShapeMismatch(message) => message,
        DspErrorView::NonFinite { context, index } => context + " contains a non-finite value at index "@ + decimal(
            index,
        ),
        DspErrorView::TargetParse { line, message } => "target line "@ + decimal(line) + ": "@ + message,
        DspErrorView::CalibrationParse { line, message } => "microphone calibration line "@ + decimal(line) + ": "@
            + message,
    }
}

impl DspError {
    /// The human-readable message, as the error is displayed.
    pub fn to_string(&self) -> (text: String)
        ensures
            text@ == dsp_error_text(self@),
    {
        let mut text = String::new();
        match self {
            DspError::EmptyInput(context) => {
                push_str(&mut text, context);
                push_str(&mut text, " must not be empty");
            },
            DspError::InvalidArgument(message) | DspError::ShapeMismatch(message) => {
                push_str(&mut text, message.as_str());
            },
            DspError::NonFinite { context, index } => {
                push_str(&mut text, context);
                push_str(&mut text, " contains a non-finite value at index ");
                push_decimal(&mut text, *index as u128);
            },
            DspError::TargetParse { line, message } => {
                push_str(&mut text, "target line ");
                push_decimal(&mut text, *line as u128);
                push_str(&mut text, ": ");
                push_str(&mut text, message.as_str());
            },
            DspError::CalibrationParse { line, message } => {
                push_str(&mut text, "microphone calibration line ");
                push_decimal(&mut text, *line as u128);
                push_str(&mut text, ": ");
                push_str(&mut text, message.as_str());
            },
        }
        text
    }
}

} // verus!
