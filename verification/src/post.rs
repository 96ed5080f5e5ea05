//! A single post: its metadata, its compiled content, and how it is parsed
//! from source text.

use vstd::prelude::*;

use crate::Config;
use crate::content::EventActionView;
use crate::content::compile_content;
use crate::content::compiled_from;
use crate::frontmatter::Frontmatter;
use crate::frontmatter::frontmatter_fields_ok;
use crate::frontmatter::frontmatter_matches;
use crate::frontmatter::spec_fm_error;
use crate::frontmatter::split_frontmatter;
use crate::frontmatter::split_spec;
use crate::timestamp::rfc3339_instant;

verus! {

/// An error met while parsing a post.
#[derive(Clone, Debug)]
pub struct ParseError {
    /// The path of the file in which the error occurred
    pub path: String,
    /// The error itself
    pub info: String,
}

/// All of the required information about a given post.
#[derive(Clone, Debug)]
pub struct Post {
    /// The path of the source file
    pub path: String,
    /// The frontmatter for this post, contains metadata
    pub frontmatter: Frontmatter,
    /// The main content of the post, rendered as HTML
    pub content: String,
}

/// Information to be passed to the post template for each post.
pub struct PostInfo<'a> {
    pub post: &'a Post,
    pub config: &'a Config,
}

/// What holds of every post that parses: the source split into frontmatter
/// and body, the body compiled into the post's content, and the
/// frontmatter's timestamp is a valid RFC 3339 timestamp.
pub open spec fn parsed_post_ok(path: Seq<char>, source: Seq<char>, p: Post) -> bool {
    &&& split_spec(source) matches Some(pair) && (exists|a: Seq<EventActionView>|
        compiled_from(pair.1, a, p.content@)) && frontmatter_matches(pair.0, p.frontmatter)
    &&& rfc3339_instant(p.frontmatter.timestamp@) is Some
    &&& p.path@ == path
}

/// A post source parses exactly when it holds two `---` delimiters and the
/// text between them supplies a well-formed frontmatter.
pub open spec fn post_parses(source: Seq<char>) -> bool {
    &&& split_spec(source) is Some
    &&& frontmatter_fields_ok(split_spec(source)->Some_0.0)
}

impl Post {
    /// Parses a post, which consists of frontmatter and content.  `path`
    /// names the source file the text was read from and is carried into
    /// any error.  The text must hold two `---` delimiters — otherwise the
    /// post is rejected as missing its frontmatter — and the text between
    /// them must parse as a frontmatter; the body after the second
    /// delimiter is compiled to HTML.
    pub fn from_path(path: &str, source: &str) -> (r: Result<Post, ParseError>)
        ensures
            r is Ok <==> post_parses(source@),
            r matches Ok(p) ==> parsed_post_ok(path@, source@, p),
            r matches Err(e) ==> e.path@ == path@,
            split_spec(source@) is None ==> r is Err && (r->Err_0).info@ == "Missing frontmatter"@,
            split_spec(source@) is Some && !post_parses(source@) ==> r is Err && (r->Err_0).info@
                == spec_fm_error(split_spec(source@)->Some_0.0),
    {
        let parts = match split_frontmatter(source) {
            Option::Some(p) => p,
            Option::None => {
                return Err(
                    ParseError {
                        path: path.to_owned(),
                        info: String::from_str("Missing frontmatter"),
                    },
                );
            },
        };
        let frontmatter = match Frontmatter::from_str(parts.0.as_str(), path) {
            Ok(f) => f,
            Err(e) => {
                return Err(e);
            },
        };
        let content = compile_content(parts.1.as_str());
        let post = Post { path: path.to_owned(), frontmatter, content };
        proof {
            let pair = split_spec(source@)->Some_0;
            let a = choose|a: Seq<EventActionView>| compiled_from(parts.1@, a, post.content@);
            assert(compiled_from(pair.1, a, post.content@));
            assert(parsed_post_ok(path@, source@, post));
        }
        Ok(post)
    }
}

} // verus!
