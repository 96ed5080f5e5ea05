//! The recent posts of the index page: a post projection carrying a
//! computed URL and a plain-text summary, and the selection of the most
//! recent posts by timestamp.

use vstd::multiset::Multiset;
use vstd::prelude::*;
use vstd::seq_lib::group_to_multiset_ensures;
use vstd::seq_lib::lemma_multiset_commutative;

use crate::frontmatter::Frontmatter;
use crate::frontmatter::frontmatter_matches;
use crate::frontmatter::spec_fm_error;
use crate::frontmatter::split_frontmatter;
use crate::frontmatter::split_spec;
use crate::post::post_parses;
use crate::post::ParseError;
use crate::summary::summarise_content;
use crate::summary::summary_events;
use crate::summary::summary_of;
use crate::text::chars_vec;
use crate::text::push_all;
use crate::text::push_str_chars;
use crate::text::string_from_chars;
use crate::text::sub_vec;
use crate::timestamp::parse_rfc3339;
use crate::timestamp::rfc3339_instant;

verus! {

/// The position of the last occurrence of `c` in `s`.
pub open spec fn rfind(s: Seq<char>, c: char) -> Option<int>
    decreases s.len(),
{
    if s.len() == 0 {
        None
    } else if s.last() == c {
        Some(s.len() - 1)
    } else {
        rfind(s.drop_last(), c)
    }
}

fn rfind_char(v: &Vec<char>, c: char) -> (r: Option<usize>)
    ensures
        match r {
            Some(i) => rfind(v@, c) == Some(i as int) && i < v@.len(),
            None => rfind(v@, c) is None,
        },
{
    let mut j: usize = v.len();
    proof {
        assert(v@.subrange(0, v@.len() as int) =~= v@);
    }
    while j > 0
        invariant
            j <= v@.len(),
            rfind(v@, c) == rfind(v@.subrange(0, j as int), c),
        decreases j,
    {
        let ghost sub = v@.subrange(0, j as int);
        proof {
            assert(sub.drop_last() =~= v@.subrange(0, j - 1));
            assert(sub.last() == v@[j - 1]);
        }
        if v[j - 1] == c {
            return Some(j - 1);
        }
        j = j - 1;
    }
    proof {
        assert(v@.subrange(0, 0) =~= Seq::<char>::empty());
    }
    None
}

/// The final component of a path: everything after the last `/`.
pub open spec fn base_name(path: Seq<char>) -> Seq<char> {
    match rfind(path, '/') {
        Option::Some(i) => path.subrange(i + 1, path.len() as int),
        Option::None => path,
    }
}

/// The file stem of a path: its final component without the extension, the
/// part after the last `.` — a leading `.` does not begin an extension.
pub open spec fn spec_file_stem(path: Seq<char>) -> Seq<char> {
    let name = base_name(path);
    match rfind(name, '.') {
        Option::Some(i) => if i > 0 {
            name.subrange(0, i)
        } else {
            name
        },
        Option::None => name,
    }
}

/// The index page's URL for a post: its file stem under `./posts/` with an
/// `.html` extension.
pub open spec fn post_url(stem: Seq<char>) -> Seq<char> {
    "./posts/"@ + stem + ".html"@
}

/// The file stem of a path.
pub fn file_stem(path: &str) -> (r: String)
    ensures
        r@ == spec_file_stem(path@),
{
    let v = chars_vec(path);
    let n = v.len();
    let start = match rfind_char(&v, '/') {
        Option::Some(i) => i + 1,
        Option::None => 0,
    };
    proof {
        assert(v@.subrange(0, n as int) =~= v@);
    }
    let name = sub_vec(&v, start, n);
    let end = match rfind_char(&name, '.') {
        Option::Some(i) => if i > 0 {
            i
        } else {
            name.len()
        },
        Option::None => name.len(),
    };
    let stem = sub_vec(&name, 0, end);
    proof {
        assert(name@.subrange(0, name@.len() as int) =~= name@);
    }
    string_from_chars(&stem)
}

/// The representation of a recent post, to be passed to the index
/// template.
#[derive(Clone, Debug)]
pub struct RecentPost {
    /// The path of the source file
    pub path: String,
    /// The post's URL on the site, filled in by `hydrate`
    pub url: Option<String>,
    pub frontmatter: Frontmatter,
    /// The raw source text of the post
    pub md_content: String,
    /// The plain-text teaser, filled in by `hydrate`
    pub summary: Option<String>,
}

impl RecentPost {
    /// Parses the post source `md_content`, read from `path`, into a
    /// recent post with an empty URL and summary: it succeeds exactly when
    /// the source holds two `---` delimiters and the text between them
    /// supplies a well-formed frontmatter, whose fields the result
    /// carries.
    pub fn from_path(path: &str, md_content: &str) -> (r: Result<RecentPost, ParseError>)
        ensures
            r is Ok <==> post_parses(md_content@),
            r matches Ok(p) ==> {
                &&& p.path@ == path@
                &&& p.md_content@ == md_content@
                &&& p.url is None
                &&& p.summary is None
                &&& split_spec(md_content@) matches Some(pair) && frontmatter_matches(
                    pair.0,
                    p.frontmatter,
                )
                &&& rfc3339_instant(p.frontmatter.timestamp@) is Some
            },
            r matches Err(e) ==> e.path@ == path@,
            split_spec(md_content@) is None ==> r is Err && (r->Err_0).info@
                == "Missing frontmatter"@,
            split_spec(md_content@) is Some && !post_parses(md_content@) ==> r is Err
                && (r->Err_0).info@ == spec_fm_error(split_spec(md_content@)->Some_0.0),
    {
        let parts = match split_frontmatter(md_content) {
            Option::Some(p) => p,
            Option::None => {
                return Err(
                    ParseError {
                        path: path.to_owned(),
                        info: String::from_str("Missing frontmatter"),
                    },
                );
            },
        };
        let frontmatter = match Frontmatter::from_str(parts.0.as_str(), path) {
            Ok(f) => f,
            Err(e) => {
                return Err(e);
            },
        };
        Ok(
            RecentPost {
                path: path.to_owned(),
                url: None,
                frontmatter,
                md_content: md_content.to_owned(),
                summary: None,
            },
        )
    }

    /// Fills in the `url` and `summary` fields of the post: the URL is the
    /// post's file stem under `./posts/` with an `.html` extension, and
    /// the summary is the teaser of the body after the second `---`
    /// delimiter.
    pub fn hydrate(self) -> (r: Result<RecentPost, ParseError>)
        ensures
            r matches Ok(p) ==> {
                &&& split_spec(self.md_content@) matches Some(pair) && p.summary matches Some(s)
                    && s@ == summary_of(summary_events(pair.1))
                &&& p.url matches Some(u) && u@ == post_url(spec_file_stem(self.path@))
                &&& p.path == self.path
                &&& p.frontmatter == self.frontmatter
                &&& p.md_content == self.md_content
            },
            r matches Err(e) ==> split_spec(self.md_content@) is None && e.path@ == self.path@
                && e.info@ == "Missing frontmatter"@,
    {
        let stem = file_stem(self.path.as_str());
        let mut url_chars = chars_vec("./posts/");
        let stem_chars = chars_vec(stem.as_str());
        push_all(&mut url_chars, &stem_chars);
        push_str_chars(&mut url_chars, ".html");
        let url = string_from_chars(&url_chars);
        let parts = match split_frontmatter(self.md_content.as_str()) {
            Option::Some(p) => p,
            Option::None => {
                return Err(
                    ParseError {
                        path: self.path.clone(),
                        info: String::from_str("Missing frontmatter"),
                    },
                );
            },
        };
        let summary = summarise_content(parts.1.as_str());
        Ok(
            RecentPost {
                path: self.path,
                url: Some(url),
                frontmatter: self.frontmatter,
                md_content: self.md_content,
                summary: Some(summary),
            },
        )
    }
}

/// `a`'s timestamp is no later than `b`'s: an unparsable timestamp comes
/// before every other, and instants are ordered by seconds, then
/// nanoseconds.
pub open spec fn key_le(a: RecentPost, b: RecentPost) -> bool {
    match (rfc3339_instant(a.frontmatter.timestamp@), rfc3339_instant(b.frontmatter.timestamp@)) {
        (Option::None, _) => true,
        (Option::Some(_), Option::None) => false,
        (Option::Some(x), Option::Some(y)) => x.0 < y.0 || (x.0 == y.0 && x.1 <= y.1),
    }
}

fn key_le_exec(a: &RecentPost, b: &RecentPost) -> (r: bool)
    ensures
        r == key_le(*a, *b),
{
    let ka = parse_rfc3339(a.frontmatter.timestamp.as_str());
    let kb = parse_rfc3339(b.frontmatter.timestamp.as_str());
    match (ka, kb) {
        (Option::None, _) => true,
        (Option::Some(_), Option::None) => false,
        (Option::Some(x), Option::Some(y)) => x.0 < y.0 || (x.0 == y.0 && x.1 <= y.1),
    }
}

/// The sequence is sorted most recent first.
pub open spec fn sorted_desc(s: Seq<RecentPost>) -> bool {
    forall|i: int, j: int| 0 <= i < j < s.len() ==> key_le(#[trigger] s[j], #[trigger] s[i])
}

/// Inserts `x` into the descending sequence `r`, keeping it descending.
fn insert_sorted(r: &mut Vec<RecentPost>, x: RecentPost)
    requires
        sorted_desc(old(r)@),
    ensures
        sorted_desc(final(r)@),
        final(r)@.to_multiset() == old(r)@.to_multiset().insert(x),
        final(r)@.len() == old(r)@.len() + 1,
{
    broadcast use group_to_multiset_ensures;
    broadcast use vstd::multiset::group_multiset_axioms;

    let mut pos: usize = 0;
    while pos < r.len() && !key_le_exec(&r[pos], &x)
        invariant
            pos <= r@.len(),
            forall|k: int| 0 <= k < pos ==> !key_le(#[trigger] r@[k], x),
        decreases r@.len() - pos,
    {
        pos = pos + 1;
    }
    let ghost before = r@;
    r.insert(pos, x);
    proof {
        assert forall|i: int, j: int| 0 <= i < j < r@.len() implies key_le(
            #[trigger] r@[j],
            #[trigger] r@[i],
        ) by {
            if j < pos {
            } else if i < pos && j == pos {
                assert(!key_le(before[i], x));
            } else if i < pos {
                assert(key_le(before[j - 1], before[i]));
            } else if i == pos {
                assert(key_le(before[j - 1], x) || j - 1 == pos - 1);
                if j > pos {
                    if pos < before.len() {
                        assert(key_le(before[pos as int], x));
                        if j - 1 > pos {
                            assert(key_le(before[j - 1], before[pos as int]));
                        }
                    }
                }
            } else {
                assert(key_le(before[j - 1], before[i - 1]));
            }
        }
        // The inserted sequence holds the old elements and `x`.
        let after = r@;
        assert(after.remove(pos as int) =~= before);
        assert(after.remove(pos as int).to_multiset() =~= after.to_multiset().remove(
            after[pos as int],
        ));
        assert(after.to_multiset().contains(x));
        assert(after.to_multiset() =~= before.to_multiset().insert(x));
    }
}

/// Selects the most recent posts: at most five, most recent first.  Every
/// selected post comes from the given ones, and none that was left out is
/// more recent than any that was kept.
pub fn select_recent(posts: Vec<RecentPost>) -> (r: Vec<RecentPost>)
    ensures
        r@.len() == if posts@.len() < 5 {
            posts@.len() as int
        } else {
            5int
        },
        sorted_desc(r@),
        r@.to_multiset().subset_of(posts@.to_multiset()),
        forall|x: RecentPost|
            #[trigger] posts@.to_multiset().sub(r@.to_multiset()).count(x) > 0 ==> forall|i: int|
                0 <= i < r@.len() ==> key_le(x, #[trigger] r@[i]),
{
    broadcast use group_to_multiset_ensures;
    broadcast use vstd::multiset::group_multiset_axioms;

    let ghost posts0 = posts@;
    let mut pool = posts;
    let mut sorted: Vec<RecentPost> = Vec::new();
    while pool.len() > 0
        invariant
            sorted_desc(sorted@),
            posts0.to_multiset() =~= sorted@.to_multiset().add(pool@.to_multiset()),
            sorted@.len() + pool@.len() == posts0.len(),
        decreases pool@.len(),
    {
        let ghost pool_before = pool@;
        let x = pool.pop().unwrap();
        proof {
            broadcast use group_to_multiset_ensures;
            broadcast use vstd::multiset::group_multiset_axioms;

            let idx = pool_before.len() - 1;
            assert(pool_before[idx] == x);
            assert(pool_before.remove(idx) =~= pool@);
            assert(pool_before.remove(idx).to_multiset() =~= pool_before.to_multiset().remove(x));
            assert(pool_before.contains(x));
            assert(pool_before.to_multiset().count(x) > 0);
        }
        insert_sorted(&mut sorted, x);
        proof {
            broadcast use group_to_multiset_ensures;
            broadcast use vstd::multiset::group_multiset_axioms;

            assert(posts0.to_multiset() =~= sorted@.to_multiset().add(pool@.to_multiset()));
        }
    }
    proof {
        assert(pool@.to_multiset() =~= Multiset::<RecentPost>::empty());
        assert(posts0.to_multiset() =~= sorted@.to_multiset());
    }
    // Keep the first five of the sorted posts.
    let ghost all_sorted = sorted@;
    let keep: usize = if sorted.len() < 5 {
        sorted.len()
    } else {
        5
    };
    let mut out: Vec<RecentPost> = Vec::new();
    while out.len() < keep
        invariant
            keep <= all_sorted.len(),
            out@.len() <= keep,
            out@ =~= all_sorted.subrange(0, out@.len() as int),
            sorted@ =~= all_sorted.subrange(out@.len() as int, all_sorted.len() as int),
        decreases keep - out@.len(),
    {
        let ghost taken = out@.len() as int;
        let y = sorted.remove(0);
        proof {
            assert(all_sorted.subrange(taken, all_sorted.len() as int)[0] == all_sorted[taken]);
            assert(all_sorted.subrange(taken, all_sorted.len() as int).remove(0) =~= all_sorted
                .subrange(taken + 1, all_sorted.len() as int));
        }
        out.push(y);
        proof {
            assert(out@ =~= all_sorted.subrange(0, taken + 1));
        }
    }
    proof {
        let prefix = all_sorted.subrange(0, keep as int);
        let suffix = all_sorted.subrange(keep as int, all_sorted.len() as int);
        assert(all_sorted =~= prefix + suffix);
        lemma_multiset_commutative(prefix, suffix);
        assert(posts0.to_multiset() =~= out@.to_multiset().add(suffix.to_multiset()));
        assert forall|x: RecentPost|
            #[trigger] posts0.to_multiset().sub(out@.to_multiset()).count(x) > 0 implies forall|
            i: int,
        |
            0 <= i < out@.len() ==> key_le(x, #[trigger] out@[i]) by {
            assert(suffix.to_multiset().count(x) > 0);
            assert(suffix.contains(x));
            let j = choose|j: int| 0 <= j < suffix.len() && suffix[j] == x;
            assert(all_sorted[keep + j] == x);
            assert forall|i: int| 0 <= i < out@.len() implies key_le(x, #[trigger] out@[i]) by {
                assert(key_le(all_sorted[keep + j], all_sorted[i]));
            }
        }
    }
    out
}

} // verus!
