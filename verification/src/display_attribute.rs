//! The single display attribute styling the preedit (a dotted underline) and
//! the state machine of its enumerator, which yields that one attribute once.

use vstd::prelude::*;

verus! {

/// Underline style of a display attribute.
#[derive(Debug, Clone, Copy, PartialEq, Eq, Structural)]
pub enum LineStyle {
    NoLine,
    Solid,
    Dot,
    Dash,
    Squiggle,
}

/// The role of the styled text.
#[derive(Debug, Clone, Copy, PartialEq, Eq, Structural)]
pub enum AttrKind {
    /// Text being typed (the preedit).
    Input,
    /// Converted, not yet committed text.
    Converted,
}

/// A display attribute as plain values: text and background colours are left
/// to the application (`None`), only the underline is styled.
#[derive(Debug, Clone, Copy, PartialEq, Eq, Structural)]
pub struct DisplayAttribute {
    /// Text colour, `None` = application default.
    pub text_color: Option<u32>,
    /// Background colour, `None` = application default.
    pub background_color: Option<u32>,
    /// Underline style.
    pub line_style: LineStyle,
    /// Bold underline.
    pub bold_line: bool,
    /// Underline colour, `None` = application default.
    pub line_color: Option<u32>,
    /// What the styled text is.
    pub kind: AttrKind,
}

/// The preedit attribute: a thin dotted underline on input text.
pub open spec fn preedit_attribute() -> DisplayAttribute {
    DisplayAttribute {
        text_color: None,
        background_color: None,
        line_style: LineStyle::Dot,
        bold_line: false,
        line_color: None,
        kind: AttrKind::Input,
    }
}

/// The single underline display-attribute info object.
#[derive(Debug, Clone, Copy)]
pub struct DisplayAttributeInfo;

impl DisplayAttributeInfo {
    /// The attribute this object describes (it is immutable).
    pub fn attribute() -> (res: DisplayAttribute)
        ensures
            res == preedit_attribute(),
    {
        DisplayAttribute {
            text_color: None,
            background_color: None,
            line_style: LineStyle::Dot,
            bold_line: false,
            line_color: None,
            kind: AttrKind::Input,
        }
    }
}

/// Enumerator yielding the single display-attribute info, then ending.
#[derive(Debug)]
pub struct EnumDisplayAttributeInfo {
    /// `false` until the single item has been yielded.
    done: bool,
}

impl EnumDisplayAttributeInfo {
    /// Whether the single item has been yielded.
    pub closed spec fn is_done(&self) -> bool {
        self.done
    }

    /// A fresh enumerator, positioned before its single item.
    pub fn new() -> (res: Self)
        ensures
            !res.is_done(),
    {
        EnumDisplayAttributeInfo { done: false }
    }

    /// An independent enumerator at the same position.
    pub fn duplicate(&self) -> (res: Self)
        ensures
            res.is_done() == self.is_done(),
    {
        EnumDisplayAttributeInfo { done: self.done }
    }

    /// Fetch up to `count` items: returns how many were fetched (the single
    /// item, once, if `count >= 1`). The request succeeded in full exactly
    /// when the returned number equals `count`.
    pub fn next(&mut self, count: u32) -> (fetched: u32)
        ensures
            (count >= 1 && !old(self).is_done()) ==> fetched == 1 && final(self).is_done(),
            !(count >= 1 && !old(self).is_done()) ==> fetched == 0 && final(self).is_done()
                == old(self).is_done(),
    {
        if count >= 1 && !self.done {
            self.done = true;
            1
        } else {
            0
        }
    }

    /// Go back before the single item.
    pub fn reset(&mut self)
        ensures
            !final(self).is_done(),
    {
        self.done = false;
    }

    /// Skip `count` items; `true` when all `count` could be skipped (there is
    /// exactly one item).
    pub fn skip(&mut self, count: u32) -> (res: bool)
        ensures
            count == 0 ==> res && final(self).is_done() == old(self).is_done(),
            count > 0 ==> final(self).is_done() && res == (!old(self).is_done() && count == 1),
    {
        if count == 0 {
            return true;
        }
        let already_done = self.done;
        self.done = true;
        !(already_done || count > 1)
    }
}

} // verus!
