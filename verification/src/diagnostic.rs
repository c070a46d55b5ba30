use vstd::prelude::*;

verus! {

/// The two forms of directive that take their arguments in brackets.
#[derive(Clone, Copy, PartialEq, Eq, Debug, Structural)]
pub enum DirectiveForm {
    Loop,
    Background,
}

/// The rule that a recipe broke.
#[derive(Clone, Copy, PartialEq, Eq, Debug, Structural)]
pub enum ErrorKind {
    /// A directive of the given form without a closing bracket.
    UnterminatedDirective { form: DirectiveForm },
    /// A loop directive whose thirteenth character is not numeric.
    MalformedLoopHeader,
    /// A loop directive that names neither pastry.
    UnrecognizedPastryKind,
    /// A loop directive whose repeat count is not a number that fits.
    InvalidRepeatCount,
    /// A color with fewer than three components.
    IncompleteColor,
    /// A token that no rule of the grammar matches.
    UnknownToken,
    /// A loop directive that reached the right edge of the viewport.
    WidthOverflow,
    /// The cursor reached the bottom edge of the viewport.
    HeightOverflow,
}

/// A fatal finding: the rule that was broken and the line it was broken on,
/// counted from one.
#[derive(Clone, Copy, PartialEq, Eq, Debug, Structural)]
pub struct Diagnostic {
    pub line: u32,
    pub kind: ErrorKind,
}

/// What sort of rule `kind` is, as a message names it.
pub open spec fn category(kind: ErrorKind) -> Seq<char> {
    match kind {
        ErrorKind::WidthOverflow | ErrorKind::HeightOverflow => "Linelimit"@,
        _ => "Syntax Error"@,
    }
}

/// What a message says of `kind` after the line number: nothing, or a
/// space and a few words.
pub open spec fn detail(kind: ErrorKind) -> Seq<char> {
    match kind {
        ErrorKind::UnterminatedDirective { form: DirectiveForm::Loop } =>
            " no space supported inside of the loop"@,
        ErrorKind::UnterminatedDirective { form: DirectiveForm::Background } =>
            " no space supported inside of the color specification"@,
        ErrorKind::MalformedLoopHeader =>
            " Boulangerie(val,type) with color Boulangerie(val,type(rgbcolor))"@,
        ErrorKind::UnrecognizedPastryKind => ""@,
        ErrorKind::InvalidRepeatCount => " repeat count is not a number"@,
        ErrorKind::IncompleteColor => " color needs three components"@,
        ErrorKind::UnknownToken => " unknown token"@,
        ErrorKind::WidthOverflow => " out of bounce width"@,
        ErrorKind::HeightOverflow => " out of bounce height"@,
    }
}

/// The character for a digit below ten.
pub open spec fn digit_char(d: nat) -> char {
    ((48 + d) as u8) as char
}

/// `n` written in base ten, without leading zeros.
pub open spec fn decimal(n: nat) -> Seq<char>
    decreases n,
{
    if n < 10 {
        seq![digit_char(n)]
    } else {
        decimal(n / 10).push(digit_char(n % 10))
    }
}

/// The message of a finding: its category, the words ` in line: `, the
/// line number, and the detail.
pub open spec fn message_text(d: Diagnostic) -> Seq<char> {
    category(d.kind) + " in line: "@ + decimal(d.line as nat) + detail(d.kind)
}

/// Appends `n`, written in base ten, to `s`.
fn push_decimal(s: &mut String, n: u32)
    ensures
        final(s)@ == old(s)@ + decimal(n as nat),
    decreases n,
{
    if n >= 10 {
        push_decimal(s, n / 10);
    }
    let d: u8 = (n % 10) as u8;
    s.push((48 + d) as char);
    assert(s@ =~= old(s)@ + decimal(n as nat));
}

impl ErrorKind {
    /// What sort of rule this is, as a message names it.
    pub fn category(self) -> (t: &'static str)
        ensures
            t@ == category(self),
    {
        match self {
            ErrorKind::WidthOverflow | ErrorKind::HeightOverflow => "Linelimit",
            _ => "Syntax Error",
        }
    }

    /// What a message says of this rule after the line number.
    pub fn detail(self) -> (t: &'static str)
        ensures
            t@ == detail(self),
    {
        match self {
            ErrorKind::UnterminatedDirective { form: DirectiveForm::Loop } => {
                " no space supported inside of the loop"
            },
            ErrorKind::UnterminatedDirective { form: DirectiveForm::Background } => {
                " no space supported inside of the color specification"
            },
            ErrorKind::MalformedLoopHeader => {
                " Boulangerie(val,type) with color Boulangerie(val,type(rgbcolor))"
            },
            ErrorKind::UnrecognizedPastryKind => "",
            ErrorKind::InvalidRepeatCount => " repeat count is not a number",
            ErrorKind::IncompleteColor => " color needs three components",
            ErrorKind::UnknownToken => " unknown token",
            ErrorKind::WidthOverflow => " out of bounce width",
            ErrorKind::HeightOverflow => " out of bounce height",
        }
    }
}

impl Diagnostic {
    /// The message of this finding.
    pub fn message(&self) -> (s: String)
        ensures
            s@ == message_text(*self),
    {
        let mut s = self.kind.category().to_owned();
        s.append(" in line: ");
        push_decimal(&mut s, self.line);
        s.append(self.kind.detail());
        s
    }
}

} // verus!
