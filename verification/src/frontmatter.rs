//! A post's metadata block: splitting it off the source text and reading
//! its fields.
//!
//! A post source holds two `---` delimiters: the text between them is the
//! YAML frontmatter, the text after the second is the Markdown body, and at
//! most three segments are taken, so further `---` occurrences belong to the
//! body.  Fewer than two delimiters is a missing-frontmatter error.

use vstd::prelude::*;

use crate::post::ParseError;
use crate::text::chars_vec;
use crate::text::find_from;
use crate::text::find_sub;
use crate::text::lemma_find_from_props;
use crate::text::sub_string;
use crate::timestamp::parse_rfc3339;
use crate::timestamp::rfc3339_instant;
use crate::yaml::yaml_check;
use crate::yaml::yaml_doc_error;
use crate::yaml::yaml_list_field;
use crate::yaml::yaml_list_field_of;
use crate::yaml::yaml_str_field;
use crate::yaml::yaml_str_field_of;

verus! {

/// The metadata block of a post.
#[derive(Clone, Debug)]
pub struct Frontmatter {
    /// The full title of the post
    pub title: String,
    /// Format: RFC 3339
    pub timestamp: String,
    /// Format: RFC 5646 (i.e. the `lang` attribute of the `html` tag)
    pub language: String,
    /// A list of topics that the post is related to
    pub tags: Vec<String>,
}

/// The frontmatter and the body of a post source: the text between the
/// first two `---` delimiters and the text after the second, or `None`
/// where fewer than two occur.
pub open spec fn split_spec(s: Seq<char>) -> Option<(Seq<char>, Seq<char>)> {
    let pat = "---"@;
    match find_from(s, pat, 0) {
        Option::None => None,
        Option::Some(i) => match find_from(s, pat, i + pat.len()) {
            Option::None => None,
            Option::Some(j) => Some(
                (s.subrange(i + pat.len(), j), s.subrange(j + pat.len(), s.len() as int)),
            ),
        },
    }
}

/// Splits a post source into its frontmatter and its body, or `None` where
/// the source holds fewer than two `---` delimiters.
pub fn split_frontmatter(source: &str) -> (r: Option<(String, String)>)
    ensures
        match r {
            Some(p) => split_spec(source@) == Some((p.0@, p.1@)),
            None => split_spec(source@) is None,
        },
{
    let v = chars_vec(source);
    let n = v.len();
    let pat = chars_vec("---");
    let i = match find_sub(&v, &pat, 0) {
        Option::Some(i) => i,
        Option::None => {
            return None;
        },
    };
    proof {
        lemma_find_from_props(v@, pat@, 0);
    }
    let j = match find_sub(&v, &pat, i + pat.len()) {
        Option::Some(j) => j,
        Option::None => {
            return None;
        },
    };
    proof {
        lemma_find_from_props(v@, pat@, i + pat@.len());
    }
    let fm = sub_string(&v, i + pat.len(), j);
    let body = sub_string(&v, j + pat.len(), n);
    Some((fm, body))
}

/// Why a parsed YAML block does not form a frontmatter.
#[derive(Clone, Copy, PartialEq, Eq, Structural, Debug)]
pub enum FrontmatterFault {
    MissingTitle,
    MissingTimestamp,
    MissingLanguage,
    MissingTags,
    /// The `timestamp` field is present but is not an RFC 3339 timestamp
    InvalidTimestamp,
}

impl FrontmatterFault {
    /// What the fault's error message says.
    pub open spec fn spec_message(self) -> Seq<char> {
        match self {
            FrontmatterFault::MissingTitle => "missing or invalid field 'title'"@,
            FrontmatterFault::MissingTimestamp => "missing or invalid field 'timestamp'"@,
            FrontmatterFault::MissingLanguage => "missing or invalid field 'language'"@,
            FrontmatterFault::MissingTags => "missing or invalid field 'tags'"@,
            FrontmatterFault::InvalidTimestamp => "field 'timestamp' is not an RFC 3339 timestamp"@,
        }
    }

    pub fn message(&self) -> (r: String)
        ensures
            r@ == self.spec_message(),
    {
        match self {
            FrontmatterFault::MissingTitle => String::from_str("missing or invalid field 'title'"),
            FrontmatterFault::MissingTimestamp => String::from_str(
                "missing or invalid field 'timestamp'",
            ),
            FrontmatterFault::MissingLanguage => String::from_str(
                "missing or invalid field 'language'",
            ),
            FrontmatterFault::MissingTags => String::from_str("missing or invalid field 'tags'"),
            FrontmatterFault::InvalidTimestamp => String::from_str(
                "field 'timestamp' is not an RFC 3339 timestamp",
            ),
        }
    }
}

/// The first fault in the gathered fields, if any: a missing or mistyped
/// field, in declaration order, then an unparsable timestamp.
pub open spec fn frontmatter_fault(
    title: Option<String>,
    timestamp: Option<String>,
    language: Option<String>,
    tags: Option<Vec<String>>,
    ts_valid: bool,
) -> Option<FrontmatterFault> {
    if title is None {
        Some(FrontmatterFault::MissingTitle)
    } else if timestamp is None {
        Some(FrontmatterFault::MissingTimestamp)
    } else if language is None {
        Some(FrontmatterFault::MissingLanguage)
    } else if tags is None {
        Some(FrontmatterFault::MissingTags)
    } else if !ts_valid {
        Some(FrontmatterFault::InvalidTimestamp)
    } else {
        None
    }
}

/// The YAML text supplies every frontmatter field — `title`, `timestamp`
/// and `language` as strings and `tags` as a sequence of strings — and
/// the timestamp is a valid RFC 3339 timestamp.
pub open spec fn frontmatter_fields_ok(s: Seq<char>) -> bool {
    &&& yaml_str_field(s, "title"@) is Some
    &&& yaml_str_field(s, "timestamp"@) is Some
    &&& yaml_str_field(s, "language"@) is Some
    &&& yaml_list_field(s, "tags"@) is Some
    &&& rfc3339_instant(yaml_str_field(s, "timestamp"@)->Some_0) is Some
}

/// `f` holds exactly the fields the YAML text supplies.
pub open spec fn frontmatter_matches(s: Seq<char>, f: Frontmatter) -> bool {
    &&& yaml_str_field(s, "title"@) == Some(f.title@)
    &&& yaml_str_field(s, "timestamp"@) == Some(f.timestamp@)
    &&& yaml_str_field(s, "language"@) == Some(f.language@)
    &&& yaml_list_field(s, "tags"@) == Some(f.tags.deep_view())
}

/// The first fault of a YAML block that parses but forms no frontmatter:
/// a missing or mistyped field in declaration order, then an unparsable
/// timestamp.
pub open spec fn named_fault(s: Seq<char>) -> FrontmatterFault {
    if yaml_str_field(s, "title"@) is None {
        FrontmatterFault::MissingTitle
    } else if yaml_str_field(s, "timestamp"@) is None {
        FrontmatterFault::MissingTimestamp
    } else if yaml_str_field(s, "language"@) is None {
        FrontmatterFault::MissingLanguage
    } else if yaml_list_field(s, "tags"@) is None {
        FrontmatterFault::MissingTags
    } else {
        FrontmatterFault::InvalidTimestamp
    }
}

/// The message a YAML block that forms no frontmatter is rejected with:
/// the parser's own message where the text is not YAML, else the first
/// fault's message.
pub open spec fn spec_fm_error(s: Seq<char>) -> Seq<char> {
    match yaml_doc_error(s) {
        Option::Some(m) => m,
        Option::None => named_fault(s).spec_message(),
    }
}

impl Frontmatter {
    /// Builds a frontmatter from its gathered fields, reporting the first
    /// fault where one is missing or the timestamp did not parse.
    pub fn assemble(
        title: Option<String>,
        timestamp: Option<String>,
        language: Option<String>,
        tags: Option<Vec<String>>,
        ts_valid: bool,
    ) -> (r: Result<Frontmatter, FrontmatterFault>)
        ensures
            r is Ok <==> frontmatter_fault(title, timestamp, language, tags, ts_valid) is None,
            r matches Ok(f) ==> title == Some(f.title) && timestamp == Some(f.timestamp) && language
                == Some(f.language) && tags == Some(f.tags),
            r matches Err(e) ==> frontmatter_fault(title, timestamp, language, tags, ts_valid)
                == Some(e),
    {
        let title = match title {
            Option::Some(t) => t,
            Option::None => {
                return Err(FrontmatterFault::MissingTitle);
            },
        };
        let timestamp = match timestamp {
            Option::Some(t) => t,
            Option::None => {
                return Err(FrontmatterFault::MissingTimestamp);
            },
        };
        let language = match language {
            Option::Some(t) => t,
            Option::None => {
                return Err(FrontmatterFault::MissingLanguage);
            },
        };
        let tags = match tags {
            Option::Some(t) => t,
            Option::None => {
                return Err(FrontmatterFault::MissingTags);
            },
        };
        if !ts_valid {
            return Err(FrontmatterFault::InvalidTimestamp);
        }
        Ok(Frontmatter { title, timestamp, language, tags })
    }

    /// Parses the text between the `---` delimiters as YAML into a
    /// frontmatter: it succeeds exactly when the text supplies the four
    /// fields — `title`, `timestamp` and `language` as strings, `tags` as
    /// a sequence of strings — and the timestamp is RFC 3339; the returned
    /// fields are exactly what the YAML supplied.  A failure carries the
    /// post's path and the parser's message (for text that is not YAML) or
    /// the first missing or invalid field.
    pub fn from_str(front_matter: &str, path: &str) -> (r: Result<Frontmatter, ParseError>)
        ensures
            r is Ok <==> frontmatter_fields_ok(front_matter@),
            r matches Ok(f) ==> frontmatter_matches(front_matter@, f) && rfc3339_instant(
                f.timestamp@,
            ) is Some,
            r matches Err(e) ==> e.path@ == path@ && e.info@ == spec_fm_error(front_matter@),
    {
        let title = yaml_str_field_of(front_matter, "title");
        let timestamp = yaml_str_field_of(front_matter, "timestamp");
        let language = yaml_str_field_of(front_matter, "language");
        let tags = yaml_list_field_of(front_matter, "tags");
        let ts_valid = match &timestamp {
            Option::Some(ts) => parse_rfc3339(ts.as_str()).is_some(),
            Option::None => false,
        };
        match Frontmatter::assemble(title, timestamp, language, tags, ts_valid) {
            Ok(f) => Ok(f),
            Err(fault) => {
                let info = match yaml_check(front_matter) {
                    Option::Some(msg) => msg,
                    Option::None => fault.message(),
                };
                Err(ParseError { path: path.to_owned(), info })
            },
        }
    }
}

} // verus!
