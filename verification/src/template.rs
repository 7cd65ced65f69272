//! Templates: a text with named placeholders, `{name}`, that is filled from
//! a list of bindings.
//!
//! The filling itself is the work of the `strfmt` crate. Here a
//! placeholder carries a name and nothing else, and filling is plain
//! replacement. `strfmt` would also take a placeholder that goes on with
//! `:` and a specification of width, alignment and the like; that is not
//! meant to be had here, and such a template is refused before `strfmt`
//! sees it. What counts as such a placeholder is told by reading the braces
//! of the template as `strfmt` reads them.

use crate::assoc::pairs_view;
use crate::error::{Error, ErrorKind, ErrorView};
use std::collections::HashMap;
use vstd::prelude::*;

verus! {

/// The three ways in which `strfmt` refuses to fill a template.
#[derive(Clone, Copy, Debug, PartialEq, Eq, Structural)]
pub enum FaultKind {
    /// The template is not well formed.
    Invalid,
    /// A placeholder names no binding.
    KeyError,
    /// A placeholder asks for a form that its value does not have.
    TypeError,
}

/// A refusal of `strfmt`: its kind and the words that came with it.
#[derive(Debug, PartialEq, Eq)]
pub struct TemplateFault {
    pub kind: FaultKind,
    pub detail: String,
}

pub struct FaultView {
    pub kind: FaultKind,
    pub detail: Seq<char>,
}

impl View for TemplateFault {
    type V = FaultView;

    open spec fn view(&self) -> FaultView {
        FaultView { kind: self.kind, detail: self.detail@ }
    }
}

/// What `strfmt::strfmt` returns for the template `tmpl` and the bindings
/// `vars`, of which the last one counts where a name is bound twice.
pub uninterp spec fn strfmt_outcome(tmpl: Seq<char>, vars: Seq<(Seq<char>, Seq<char>)>) -> Result<
    Seq<char>,
    FaultView,
>;

/// Where the reader of `strfmt` stands in a template.
#[derive(Clone, Copy, Debug, PartialEq, Eq, Structural)]
pub enum Reading {
    /// In plain text.
    Text,
    /// Right behind the brace that opened a placeholder.
    Opened,
    /// In a placeholder that began with `:` and so has no name.
    Nameless,
    /// In a placeholder, within its name.
    Name,
    /// In a placeholder, behind its name and a `:`.
    Spec,
}

/// What the reader has come to.
#[derive(Clone, Copy, Debug, PartialEq, Eq, Structural)]
pub struct Scan {
    pub reading: Reading,
    /// A lone `}` waits for the `}` that makes it an escaped brace.
    pub closing: bool,
    /// The reader has given the template up as ill-formed.
    pub stopped: bool,
    /// A placeholder with a name and, behind a `:`, a format specification
    /// has been read to its end.
    pub specified: bool,
}

/// The reader after one more character, as `strfmt` reads: a `{` right
/// behind the `{` that opened a placeholder is an escaped brace, as is a
/// `}` behind a lone `}`, wherever the lone one stood; a placeholder ends
/// at any other `}`; a `{` further inside a placeholder, a lone `}` before
/// anything but a brace, and a placeholder without a name end the reading.
pub open spec fn scan_step(scan: Scan, c: char) -> Scan {
    if scan.stopped {
        scan
    } else if c == '{' {
        match scan.reading {
            Reading::Text => Scan { reading: Reading::Opened, ..scan },
            Reading::Opened => Scan { reading: Reading::Text, ..scan },
            _ => Scan { stopped: true, ..scan },
        }
    } else if c == '}' {
        if scan.closing {
            Scan {
                closing: false,
                reading: if scan.reading == Reading::Opened {
                    Reading::Name
                } else {
                    scan.reading
                },
                ..scan
            }
        } else {
            match scan.reading {
                Reading::Text => Scan { closing: true, ..scan },
                Reading::Opened => Scan { stopped: true, ..scan },
                Reading::Nameless => Scan { stopped: true, ..scan },
                Reading::Name => Scan { reading: Reading::Text, ..scan },
                Reading::Spec => Scan { reading: Reading::Text, specified: true, ..scan },
            }
        }
    } else if scan.closing {
        Scan { stopped: true, ..scan }
    } else {
        match scan.reading {
            Reading::Text => scan,
            Reading::Opened => Scan {
                reading: if c == ':' {
                    Reading::Nameless
                } else {
                    Reading::Name
                },
                ..scan
            },
            Reading::Name => Scan {
                reading: if c == ':' {
                    Reading::Spec
                } else {
                    Reading::Name
                },
                ..scan
            },
            _ => scan,
        }
    }
}

/// The reader before the first character.
pub open spec fn scan_start() -> Scan {
    Scan { reading: Reading::Text, closing: false, stopped: false, specified: false }
}

/// The reader after the first `n` characters of `tmpl`.
pub open spec fn scanned(tmpl: Seq<char>, n: nat) -> Scan
    decreases n,
{
    if n == 0 || n > tmpl.len() {
        scan_start()
    } else {
        scan_step(scanned(tmpl, (n - 1) as nat), tmpl[n - 1])
    }
}

/// Reading `tmpl` with every name bound, `strfmt` comes to the end of a
/// placeholder that holds a name and, behind a `:`, a format specification.
pub open spec fn has_format_spec(tmpl: Seq<char>) -> bool {
    scanned(tmpl, tmpl.len()).specified
}

/// The failure for a template that was not filled because of `fault`.
pub open spec fn template_failure(tmpl: Seq<char>, fault: FaultView) -> ErrorView {
    ErrorView {
        kind: ErrorKind::Template,
        message: "cannot render template `"@ + tmpl + "': "@ + match fault.kind {
            FaultKind::Invalid => "Invalid("@,
            FaultKind::KeyError => "KeyError("@,
            FaultKind::TypeError => "TypeError("@,
        } + fault.detail + ")"@,
    }
}

/// The failure for a template with a format specification.
pub open spec fn specified_failure(tmpl: Seq<char>) -> ErrorView {
    ErrorView {
        kind: ErrorKind::Template,
        message: "cannot render template `"@ + tmpl
            + "': a placeholder holds a format specification"@,
    }
}

/// What filling gives, as the library reports it.
pub open spec fn settled_outcome(tmpl: Seq<char>, outcome: Result<Seq<char>, FaultView>) -> Result<
    Seq<char>,
    ErrorView,
> {
    match outcome {
        Ok(text) => Ok(text),
        Err(fault) => Err(template_failure(tmpl, fault)),
    }
}

/// The template `tmpl` filled from `vars`, or the failure to fill it.
pub open spec fn rendered(tmpl: Seq<char>, vars: Seq<(Seq<char>, Seq<char>)>) -> Result<
    Seq<char>,
    ErrorView,
> {
    if has_format_spec(tmpl) {
        Err(specified_failure(tmpl))
    } else {
        settled_outcome(tmpl, strfmt_outcome(tmpl, vars))
    }
}

/// Calls `strfmt::strfmt` on `tmpl` and on a map that holds the bindings of
/// `vars`, inserted in order. The contract names the result and claims
/// nothing else of it. Templates in which `strfmt` would come to a format
/// specification are left out: a specification can ask for a width that
/// `strfmt` pads to, character by character, however large it is.
#[verifier::external_body]
fn fill(tmpl: &str, vars: &Vec<(String, String)>) -> (r: Result<String, TemplateFault>)
    requires
        !has_format_spec(tmpl@),
    ensures
        match strfmt_outcome(tmpl@, pairs_view(vars@)) {
            Ok(text) => r matches Ok(s) && s@ == text,
            Err(fault) => r matches Err(f) && f@ == fault,
        },
{
    let map: HashMap<String, String> = vars.iter().cloned().collect();
    match strfmt::strfmt(tmpl, &map) {
        Ok(text) => Ok(text),
        Err(strfmt::FmtError::Invalid(detail)) => Err(
            TemplateFault { kind: FaultKind::Invalid, detail },
        ),
        Err(strfmt::FmtError::KeyError(detail)) => Err(
            TemplateFault { kind: FaultKind::KeyError, detail },
        ),
        Err(strfmt::FmtError::TypeError(detail)) => Err(
            TemplateFault { kind: FaultKind::TypeError, detail },
        ),
    }
}

fn read(scan: Scan, c: char) -> (r: Scan)
    ensures
        r == scan_step(scan, c),
{
    if scan.stopped {
        scan
    } else if c == '{' {
        match scan.reading {
            Reading::Text => Scan { reading: Reading::Opened, ..scan },
            Reading::Opened => Scan { reading: Reading::Text, ..scan },
            _ => Scan { stopped: true, ..scan },
        }
    } else if c == '}' {
        if scan.closing {
            match scan.reading {
                Reading::Opened => Scan { closing: false, reading: Reading::Name, ..scan },
                _ => Scan { closing: false, ..scan },
            }
        } else {
            match scan.reading {
                Reading::Text => Scan { closing: true, ..scan },
                Reading::Opened => Scan { stopped: true, ..scan },
                Reading::Nameless => Scan { stopped: true, ..scan },
                Reading::Name => Scan { reading: Reading::Text, ..scan },
                Reading::Spec => Scan { reading: Reading::Text, specified: true, ..scan },
            }
        }
    } else if scan.closing {
        Scan { stopped: true, ..scan }
    } else {
        match scan.reading {
            Reading::Opened => if c == ':' {
                Scan { reading: Reading::Nameless, ..scan }
            } else {
                Scan { reading: Reading::Name, ..scan }
            },
            Reading::Name => if c == ':' {
                Scan { reading: Reading::Spec, ..scan }
            } else {
                scan
            },
            _ => scan,
        }
    }
}

/// Reads `tmpl` for a placeholder with a format specification.
pub fn is_specified(tmpl: &str) -> (r: bool)
    ensures
        r == has_format_spec(tmpl@),
{
    let n = tmpl.unicode_len();
    let mut scan = Scan {
        reading: Reading::Text,
        closing: false,
        stopped: false,
        specified: false,
    };
    let mut i: usize = 0;
    while i < n
        invariant
            i <= n,
            n == tmpl@.len(),
            scanned(tmpl@, i as nat) == scan,
        decreases n - i,
    {
        scan = read(scan, tmpl.get_char(i));
        i += 1;
    }
    scan.specified
}

/// Turns what `strfmt` returned for `tmpl` into the library's own result.
pub fn template_result(tmpl: &str, outcome: Result<String, TemplateFault>) -> (r: Result<
    String,
    Error,
>)
    ensures
        match outcome {
            Ok(text) => r matches Ok(s) && s@ == text@,
            Err(fault) => r matches Err(e) && e@ == template_failure(tmpl@, fault@),
        },
{
    match outcome {
        Ok(text) => Ok(text),
        Err(fault) => {
            let mut message = "cannot render template `".to_owned();
            message.append(tmpl);
            message.append("': ");
            match fault.kind {
                FaultKind::Invalid => message.append("Invalid("),
                FaultKind::KeyError => message.append("KeyError("),
                FaultKind::TypeError => message.append("TypeError("),
            }
            message.append(fault.detail.as_str());
            message.append(")");
            Err(Error { kind: ErrorKind::Template, message })
        },
    }
}

/// Fills the template `tmpl` from the bindings `vars`.
pub fn render(tmpl: &str, vars: &Vec<(String, String)>) -> (r: Result<String, Error>)
    ensures
        match rendered(tmpl@, pairs_view(vars@)) {
            Ok(text) => r matches Ok(s) && s@ == text,
            Err(e) => r matches Err(x) && x@ == e,
        },
{
    if is_specified(tmpl) {
        let mut message = "cannot render template `".to_owned();
        message.append(tmpl);
        message.append("': a placeholder holds a format specification");
        Err(Error { kind: ErrorKind::Template, message })
    } else {
        template_result(tmpl, fill(tmpl, vars))
    }
}

} // verus!
