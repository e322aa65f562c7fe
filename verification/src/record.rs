//! The record extractor: resolves the four required attributes of a `RECORD`
//! element and decodes its timestamp into a typed record.

use vstd::prelude::*;

use crate::timestamp::{spec_decode, decode_digits, DecodePolicy, Timestamp};

verus! {

/// Why a run failed. Every failure aborts the whole run at its first
/// occurrence; nothing is recovered locally.
#[derive(Debug, Clone, PartialEq)]
pub enum PipelineError {
    /// The tokenizer reported malformed input.
    XmlSyntax { detail: String },
    /// The document shape is wrong: not the expected root, or an unexpected
    /// event among the records.
    MalformedDocument { detail: String },
    /// A `RECORD` element lacks the named required attribute.
    MissingAttribute { name: String },
    /// The `date` attribute is not a well-formed digit string for the active
    /// decode policy.
    TimestampFormat,
}

/// The mathematical image of a [`PipelineError`].
pub enum ErrorV {
    XmlSyntax { detail: Seq<char> },
    MalformedDocument { detail: Seq<char> },
    MissingAttribute { name: Seq<char> },
    TimestampFormat,
}

impl DeepView for PipelineError {
    type V = ErrorV;

    open spec fn deep_view(&self) -> ErrorV {
        match self {
            PipelineError::XmlSyntax { detail } => ErrorV::XmlSyntax { detail: detail@ },
            PipelineError::MalformedDocument { detail } => ErrorV::MalformedDocument {
                detail: detail@,
            },
            PipelineError::MissingAttribute { name } => ErrorV::MissingAttribute { name: name@ },
            PipelineError::TimestampFormat => ErrorV::TimestampFormat,
        }
    }
}

/// One extracted record. `class`, `comment` and `laptime` are opaque labels
/// taken verbatim from the attributes; `date` is the decoded timestamp.
#[derive(Debug, Clone, PartialEq)]
pub struct Record {
    pub class: String,
    pub comment: String,
    pub laptime: String,
    pub date: Timestamp,
}

/// The mathematical image of a [`Record`].
pub struct RecordV {
    pub class: Seq<char>,
    pub comment: Seq<char>,
    pub laptime: Seq<char>,
    pub date: Timestamp,
}

impl DeepView for Record {
    type V = RecordV;

    open spec fn deep_view(&self) -> RecordV {
        RecordV {
            class: self.class@,
            comment: self.comment@,
            laptime: self.laptime@,
            date: self.date,
        }
    }
}

/// The value of the first attribute called `name`, if any. Later attributes
/// of the same name are shadowed; attribute order is otherwise irrelevant.
pub open spec fn spec_lookup(attrs: Seq<(Seq<char>, Seq<char>)>, name: Seq<char>) -> Option<
    Seq<char>,
>
    decreases attrs.len(),
{
    if attrs.len() == 0 {
        None
    } else if attrs[0].0 == name {
        Some(attrs[0].1)
    } else {
        spec_lookup(attrs.drop_first(), name)
    }
}

/// True exactly when the two strings hold the same characters.
pub fn str_eq(a: &str, b: &str) -> (r: bool)
    ensures
        r == (a@ == b@),
{
    let alen = a.unicode_len();
    let blen = b.unicode_len();
    if alen != blen {
        return false;
    }
    let mut i: usize = 0;
    while i < alen
        invariant
            i <= alen,
            alen == a@.len(),
            alen == b@.len(),
            forall|j: int| 0 <= j < i ==> a@[j] == b@[j],
        decreases alen - i,
    {
        if a.get_char(i) != b.get_char(i) {
            return false;
        }
        i = i + 1;
    }
    proof {
        assert(a@ =~= b@);
    }
    true
}

/// Looks up the first attribute called `name`, as `spec_lookup` reads it.
pub fn lookup_attr(attrs: &Vec<(String, String)>, name: &str) -> (r: Option<String>)
    ensures
        match spec_lookup(attrs.deep_view(), name@) {
            Some(v) => r matches Some(s) && s@ == v,
            None => r is None,
        },
{
    let ghost av: Seq<(Seq<char>, Seq<char>)> = attrs.deep_view();
    proof {
        assert(av.skip(0) =~= av);
    }
    let mut i: usize = 0;
    while i < attrs.len()
        invariant
            i <= attrs.len(),
            av == attrs.deep_view(),
            av.len() == attrs.len(),
            spec_lookup(av.skip(i as int), name@) == spec_lookup(av, name@),
        decreases attrs.len() - i,
    {
        proof {
            assert(av.skip(i as int)[0] == av[i as int]);
        }
        if str_eq(attrs[i].0.as_str(), name) {
            return Some(attrs[i].1.clone());
        }
        proof {
            assert(av.skip(i as int).drop_first() =~= av.skip(i + 1 as int));
        }
        i = i + 1;
    }
    proof {
        assert(av.skip(i as int) =~= Seq::<(Seq<char>, Seq<char>)>::empty());
    }
    None
}

/// What extracting a record from an attribute list yields. The four required
/// attributes are resolved in the order `date`, `class`, `comment`,
/// `laptime`; the first one absent names the failure, and only once all four
/// are present is the `date` string decoded. Nothing is defaulted, trimmed or
/// validated beyond that.
pub open spec fn spec_extract(attrs: Seq<(Seq<char>, Seq<char>)>, policy: DecodePolicy) -> Result<
    RecordV,
    ErrorV,
> {
    match spec_lookup(attrs, "date"@) {
        None => Err(ErrorV::MissingAttribute { name: "date"@ }),
        Some(date) => match spec_lookup(attrs, "class"@) {
            None => Err(ErrorV::MissingAttribute { name: "class"@ }),
            Some(class) => match spec_lookup(attrs, "comment"@) {
                None => Err(ErrorV::MissingAttribute { name: "comment"@ }),
                Some(comment) => match spec_lookup(attrs, "laptime"@) {
                    None => Err(ErrorV::MissingAttribute { name: "laptime"@ }),
                    Some(laptime) => match spec_decode(date, policy) {
                        None => Err(ErrorV::TimestampFormat),
                        Some(ts) => Ok(RecordV { class, comment, laptime, date: ts }),
                    },
                },
            },
        },
    }
}

/// The mathematical image of an extraction result.
pub open spec fn extract_result_view(r: Result<Record, PipelineError>) -> Result<RecordV, ErrorV> {
    match r {
        Ok(rec) => Ok(rec.deep_view()),
        Err(e) => Err(e.deep_view()),
    }
}

/// Builds a typed record from a `RECORD` element's attribute list, exactly as
/// `spec_extract` reads it.
pub fn extract_record(attrs: &Vec<(String, String)>, policy: DecodePolicy) -> (r: Result<
    Record,
    PipelineError,
>)
    ensures
        extract_result_view(r) == spec_extract(attrs.deep_view(), policy),
{
    let date_raw = match lookup_attr(attrs, "date") {
        Some(v) => v,
        None => {
            return Err(PipelineError::MissingAttribute { name: "date".to_owned() });
        },
    };
    let class = match lookup_attr(attrs, "class") {
        Some(v) => v,
        None => {
            return Err(PipelineError::MissingAttribute { name: "class".to_owned() });
        },
    };
    let comment = match lookup_attr(attrs, "comment") {
        Some(v) => v,
        None => {
            return Err(PipelineError::MissingAttribute { name: "comment".to_owned() });
        },
    };
    let laptime = match lookup_attr(attrs, "laptime") {
        Some(v) => v,
        None => {
            return Err(PipelineError::MissingAttribute { name: "laptime".to_owned() });
        },
    };
    match decode_digits(date_raw.as_str(), policy) {
        Some(ts) => Ok(Record { class, comment, laptime, date: ts }),
        None => Err(PipelineError::TimestampFormat),
    }
}

} // verus!

