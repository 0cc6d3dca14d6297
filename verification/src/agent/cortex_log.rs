//! What the cortex records of its actions.

use crate::events::Fraction;
use crate::text::{view_of, views};
use vstd::prelude::*;

verus! {

/// A detail of a record.
#[derive(Debug, Clone, PartialEq)]
pub enum Detail {
    Text(String),
    Number(i64),
    Count(u64),
    Fraction(Fraction),
    Flag(bool),
    Texts(Vec<String>),
    Null,
}

/// A record of an action, with its details under distinct names.
#[derive(Debug, Clone, PartialEq)]
pub struct CortexLog {
    pub event_type: String,
    pub summary: String,
    pub details: Vec<(String, Detail)>,
}

/// Whether a record is of a type, says a summary, and has so many details.
pub open spec fn is_log(log: CortexLog, event_type: Seq<char>, summary: Seq<char>, details: int) -> bool {
    &&& log.event_type@ == event_type
    &&& log.summary@ == summary
    &&& log.details@.len() == details
}

/// Whether a detail of a record is a text.
pub open spec fn has_text(log: CortexLog, at: int, name: Seq<char>, text: Seq<char>) -> bool {
    let (key, value) = log.details@[at];
    &&& 0 <= at < log.details@.len()
    &&& key@ == name
    &&& value is Text
    &&& value->Text_0@ == text
}

/// Whether a detail of a record is a number.
pub open spec fn has_number(log: CortexLog, at: int, name: Seq<char>, number: int) -> bool {
    let (key, value) = log.details@[at];
    &&& 0 <= at < log.details@.len()
    &&& key@ == name
    &&& value is Number
    &&& value->Number_0 == number
}

/// Whether a detail of a record is a count.
pub open spec fn has_count(log: CortexLog, at: int, name: Seq<char>, count: int) -> bool {
    let (key, value) = log.details@[at];
    &&& 0 <= at < log.details@.len()
    &&& key@ == name
    &&& value is Count
    &&& value->Count_0 == count
}

/// Whether a detail of a record is a fraction.
pub open spec fn has_fraction(log: CortexLog, at: int, name: Seq<char>, fraction: Fraction) -> bool {
    let (key, value) = log.details@[at];
    &&& 0 <= at < log.details@.len()
    &&& key@ == name
    &&& value == Detail::Fraction(fraction)
}

/// Whether a detail of a record is a text, or nothing where there is none.
pub open spec fn has_option(log: CortexLog, at: int, name: Seq<char>, text: Option<Seq<char>>) -> bool {
    match text {
        Some(said) => has_text(log, at, name, said),
        None => {
            let (key, value) = log.details@[at];
            &&& 0 <= at < log.details@.len()
            &&& key@ == name
            &&& value is Null
        },
    }
}

/// A text as a detail, nothing where there is none.
pub fn option_detail(text: &Option<String>) -> (detail: Detail)
    ensures
        match view_of(*text) {
            Some(said) => detail is Text && detail->Text_0@ == said,
            None => detail is Null,
        },
{
    match text {
        Some(said) => Detail::Text(said.clone()),
        None => Detail::Null,
    }
}

/// Whether a detail of a record is a flag.
pub open spec fn has_flag(log: CortexLog, at: int, name: Seq<char>, flag: bool) -> bool {
    let (key, value) = log.details@[at];
    &&& 0 <= at < log.details@.len()
    &&& key@ == name
    &&& value is Flag
    &&& value->Flag_0 == flag
}

/// Whether a detail of a record is a list of texts.
pub open spec fn has_texts(log: CortexLog, at: int, name: Seq<char>, texts: Seq<Seq<char>>) -> bool {
    let (key, value) = log.details@[at];
    &&& 0 <= at < log.details@.len()
    &&& key@ == name
    &&& value is Texts
    &&& views(value->Texts_0@) == texts
}

} // verus!
