//! Configuration errors, and their aggregate.
use vstd::prelude::*;

verus! {

/// A field whose source held no value.
#[derive(Clone, Debug, PartialEq, Eq)]
pub struct MissingField {
    pub field_name: String,
}

/// A field whose source held a value that did not parse.
#[derive(Clone, Debug, PartialEq, Eq)]
pub struct ParseError {
    pub field_name: String,
    pub message: String,
}

/// One problem with one configuration field.
#[derive(Clone, Debug, PartialEq, Eq)]
pub enum ConfError {
    MissingField(MissingField),
    ParseError(ParseError),
}

/// The mathematical model of a `ConfError`.
pub ghost enum ConfErrorView {
    MissingField { field_name: Seq<char> },
    ParseError { field_name: Seq<char>, message: Seq<char> },
}

impl View for ConfError {
    type V = ConfErrorView;

    open spec fn view(&self) -> ConfErrorView {
        match self {
            ConfError::MissingField(m) => ConfErrorView::MissingField { field_name: m.field_name@ },
            ConfError::ParseError(p) => ConfErrorView::ParseError {
                field_name: p.field_name@,
                message: p.message@,
            },
        }
    }
}

/// The text shown for one error.
pub open spec fn error_text(e: ConfErrorView) -> Seq<char> {
    match e {
        ConfErrorView::MissingField { field_name } => "MissingField: "@ + field_name,
        ConfErrorView::ParseError { field_name, message } => "ParseError: Failed to parse "@
            + field_name + ": "@ + message,
    }
}

/// The text shown for a list of errors: each error's text, in order.
pub open spec fn errors_text(es: Seq<ConfErrorView>) -> Seq<char>
    decreases es.len(),
{
    if es.len() == 0 {
        Seq::empty()
    } else {
        errors_text(es.drop_last()) + error_text(es.last())
    }
}

impl ConfError {
    /// Builds the error for a field whose source held nothing.
    pub fn missing(field_name: &str) -> (r: ConfError)
        ensures
            r@ == (ConfErrorView::MissingField { field_name: field_name@ }),
    {
        ConfError::MissingField(MissingField { field_name: field_name.to_owned() })
    }

    /// The error as text: `MissingField: <field>` or
    /// `ParseError: Failed to parse <field>: <message>`.
    pub fn describe(&self) -> (r: String)
        ensures
            r@ == error_text(self@),
    {
        proof {
            reveal_strlit("MissingField: ");
            reveal_strlit("ParseError: Failed to parse ");
            reveal_strlit(": ");
        }
        match self {
            ConfError::MissingField(m) => {
                let s = String::from_str("MissingField: ");
                s.concat(m.field_name.as_str())
            },
            ConfError::ParseError(p) => {
                let s = String::from_str("ParseError: Failed to parse ");
                let s = s.concat(p.field_name.as_str());
                let s = s.concat(": ");
                s.concat(p.message.as_str())
            },
        }
    }
}

/// Every problem found while building a configuration, in field order.
#[derive(Clone, Debug, PartialEq, Eq)]
pub struct ConfErrors(pub Vec<ConfError>);

impl View for ConfErrors {
    type V = Seq<ConfErrorView>;

    open spec fn view(&self) -> Seq<ConfErrorView> {
        self.0@.map_values(|e: ConfError| e@)
    }
}

impl ConfErrors {
    /// All the errors as one text: each error's own text, in order.
    pub fn describe(&self) -> (r: String)
        ensures
            r@ == errors_text(self@),
    {
        let mut out = String::new();
        let mut i: usize = 0;
        while i < self.0.len()
            invariant
                i <= self.0@.len(),
                out@ == errors_text(self@.take(i as int)),
            decreases self.0@.len() - i,
        {
            let piece = self.0[i].describe();
            proof {
                assert(self@.take(i as int + 1).drop_last() =~= self@.take(i as int));
            }
            out = out.concat(piece.as_str());
            i = i + 1;
        }
        proof {
            assert(self@.take(i as int) =~= self@);
        }
        out
    }
}

} // verus!
